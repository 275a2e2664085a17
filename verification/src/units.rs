//! Byte counts written for people: "  1.5 GB".
//!
//! The count is read as a double (53 bits of precision, rounded to nearest,
//! ties to even), divided by 1024 while it is at least 1024 and a larger unit
//! is left, and shown with one decimal (rounded to nearest, ties to even)
//! right-aligned in six places, then the unit left-aligned in two.
use vstd::prelude::*;

use crate::text::{
    decimal, digit_char, is_white, pad_left, pad_right, push_char, push_chars, push_spaces, spaces,
    trim, trim_end, trim_start, trimmed,
};

#[allow(unused_imports)]
use vstd::arithmetic::div_mod::{lemma_div_denominator, lemma_fundamental_div_mod};

verus! {

/// 2^53: the doubles below it are exactly the integers.
pub open spec fn two53() -> nat {
    9007199254740992
}

/// The distance between neighbouring doubles around the count `b`.
pub open spec fn f64_spacing(b: nat) -> nat
    decreases b,
{
    if b < two53() {
        1
    } else {
        2 * f64_spacing(b / 2)
    }
}

/// `n / d` rounded to the nearest integer, ties to the even one.
pub open spec fn round_half_even(n: nat, d: nat) -> nat {
    let q = n / d;
    let r = n % d;
    if 2 * r > d || (2 * r == d && q % 2 == 1) {
        q + 1
    } else {
        q
    }
}

/// The value of the count `b` once it is a double (`b as f64`).
pub open spec fn f64_value(b: nat) -> nat {
    let s = f64_spacing(b);
    s * round_half_even(b, s)
}

/// 1024 to the power `u`.
pub open spec fn pow1024(u: nat) -> nat
    decreases u,
{
    if u == 0 {
        1
    } else {
        1024 * pow1024((u - 1) as nat)
    }
}

/// The unit that a value `v` is shown in, when the units from `u` on are still
/// open: the next while `v` reaches it, stopping at the last (TB).
pub open spec fn unit_from(v: nat, u: nat) -> nat
    decreases 4 - u,
{
    if u < 4 && v >= pow1024(u + 1) {
        unit_from(v, u + 1)
    } else {
        u
    }
}

/// The unit that `v` bytes are shown in: 0 = B, 1 = KB, 2 = MB, 3 = GB, 4 = TB.
pub open spec fn unit_of(v: nat) -> nat {
    unit_from(v, 0)
}

/// The symbol of a unit.
pub open spec fn unit_name(u: nat) -> Seq<char> {
    if u == 0 {
        seq!['B']
    } else if u == 1 {
        seq!['K', 'B']
    } else if u == 2 {
        seq!['M', 'B']
    } else if u == 3 {
        seq!['G', 'B']
    } else {
        seq!['T', 'B']
    }
}

/// The count of tenths of the unit that `bytes` is shown with.
pub open spec fn shown_tenths(bytes: u64) -> nat {
    let v = f64_value(bytes as nat);
    round_half_even(10 * v, pow1024(unit_of(v)))
}

/// The number as shown: its whole part, a point and one decimal.
pub open spec fn shown_number(bytes: u64) -> Seq<char> {
    let t = shown_tenths(bytes);
    decimal(t / 10) + seq!['.', digit_char(t % 10)]
}

/// `bytes` for people: the number right-aligned in six places, a space and the
/// unit left-aligned in two (`format!("{:>6.1} {:<2}", ..)`).
pub open spec fn size_text(bytes: u64) -> Seq<char> {
    pad_left(shown_number(bytes), 6) + seq![' '] + pad_right(
        unit_name(unit_of(f64_value(bytes as nat))),
        2,
    )
}

proof fn lemma_decimal_first(n: nat)
    ensures
        decimal(n).len() >= 1,
        !is_white(decimal(n)[0]),
    decreases n,
{
    if n < 10 {
        assert(decimal(n) == seq![digit_char(n)]);
        assert(48 <= 48 + n < 58);
    } else {
        lemma_decimal_first(n / 10);
        assert(decimal(n)[0] == decimal(n / 10)[0]);
    }
}

proof fn lemma_trim_start_spaces(k: nat, x: Seq<char>)
    requires
        x.len() > 0,
        !is_white(x[0]),
    ensures
        trim_start(spaces(k) + x) == x,
    decreases k,
{
    if k > 0 {
        assert((spaces(k) + x).drop_first() =~= spaces((k - 1) as nat) + x);
        assert((spaces(k) + x)[0] == ' ');
        lemma_trim_start_spaces((k - 1) as nat, x);
    } else {
        assert(spaces(0) + x =~= x);
    }
}

proof fn lemma_trim_end_spaces(x: Seq<char>, k: nat)
    requires
        x.len() > 0,
        !is_white(x.last()),
    ensures
        trim_end(x + spaces(k)) == x,
    decreases k,
{
    if k > 0 {
        assert((x + spaces(k)).drop_last() =~= x + spaces((k - 1) as nat));
        assert((x + spaces(k)).last() == ' ');
        lemma_trim_end_spaces(x, (k - 1) as nat);
    } else {
        assert(x + spaces(0) =~= x);
    }
}

/// The size without its padding: the number, a space and the unit.
pub open spec fn compact_size_text(bytes: u64) -> Seq<char> {
    shown_number(bytes) + seq![' '] + unit_name(unit_of(f64_value(bytes as nat)))
}

/// Trimming the size text of `bytes` leaves the number, one space and the
/// unit: the padding is spaces only, and the number and unit have none.
pub proof fn lemma_trimmed_size_text(bytes: u64)
    ensures
        trimmed(size_text(bytes)) == compact_size_text(bytes),
{
    let t = shown_tenths(bytes);
    let num = shown_number(bytes);
    let unit = unit_name(unit_of(f64_value(bytes as nat)));
    lemma_decimal_first(t / 10);
    assert(num[0] == decimal(t / 10)[0]);
    let rest = num + seq![' '] + unit;
    let padded = pad_left(num, 6);
    let k: nat = if num.len() < 6 {
        (6 - num.len()) as nat
    } else {
        0
    };
    assert(padded =~= spaces(k) + num);
    let tail_pad: nat = if unit.len() < 2 {
        (2 - unit.len()) as nat
    } else {
        0
    };
    assert(pad_right(unit, 2) =~= unit + spaces(tail_pad));
    assert(size_text(bytes) =~= spaces(k) + (rest + spaces(tail_pad)));
    assert((rest + spaces(tail_pad))[0] == num[0]);
    lemma_trim_start_spaces(k, rest + spaces(tail_pad));
    assert(rest.last() == 'B');
    lemma_trim_end_spaces(rest, tail_pad);
}

proof fn lemma_unit_from_bounds(v: nat, u: nat)
    requires
        u <= 4,
        v >= pow1024(u),
    ensures
        u <= unit_from(v, u) <= 4,
        v >= pow1024(unit_from(v, u)),
        unit_from(v, u) < 4 ==> v < pow1024(unit_from(v, u) + 1),
    decreases 4 - u,
{
    if u < 4 && v >= pow1024(u + 1) {
        lemma_unit_from_bounds(v, u + 1);
    }
}

/// A size is shown in the largest unit, up to TB, that it reaches.
pub proof fn lemma_unit_is_largest_reached(v: nat)
    ensures
        unit_of(v) <= 4,
        v >= 1 ==> v >= pow1024(unit_of(v)),
        unit_of(v) < 4 ==> v < pow1024(unit_of(v) + 1),
{
    if v >= 1 {
        assert(pow1024(0) == 1);
        lemma_unit_from_bounds(v, 0);
    } else {
        assert(pow1024(1) == 1024 * pow1024(0));
        assert(unit_of(v) == 0);
    }
}

/// Counts below 2^53 are exact as doubles, so they are shown as they are.
pub proof fn lemma_small_counts_exact(b: nat)
    requires
        b < two53(),
    ensures
        f64_value(b) == b,
{
    assert(f64_spacing(b) == 1);
    assert(b / 1 == b && b % 1 == 0) by (nonlinear_arith);
}

proof fn lemma_pow1024_values()
    ensures
        pow1024(0) == 1,
        pow1024(1) == 1024,
        pow1024(2) == 1048576,
        pow1024(3) == 1073741824,
        pow1024(4) == 1099511627776,
        pow1024(5) == 1125899906842624,
{
    reveal_with_fuel(pow1024, 6);
}

/// The value of `bytes` once it is a double, with its spacing.
fn double_value(bytes: u64) -> (v: u128)
    ensures
        v == f64_value(bytes as nat),
        v <= bytes + 2048,
{
    let mut x: u64 = bytes;
    let mut s: u64 = 1;
    while x >= 9007199254740992
        invariant
            f64_spacing(bytes as nat) == s * f64_spacing(x as nat),
            x == (bytes as nat) / (s as nat),
            1 <= s,
            s * x <= bytes,
            s <= 4096,
        decreases x,
    {
        proof {
            lemma_div_denominator(bytes as int, s as int, 2);
            assert(s * 9007199254740992 <= bytes) by (nonlinear_arith)
                requires
                    s * x <= bytes,
                    x >= 9007199254740992,
            ;
            assert(s < 2048) by (nonlinear_arith)
                requires
                    s * 9007199254740992 <= bytes,
                    bytes <= 18446744073709551615u64,
            ;
            assert(f64_spacing(x as nat) == 2 * f64_spacing((x / 2) as nat));
            assert(s * (2 * f64_spacing((x / 2) as nat)) == (s * 2) * f64_spacing((x / 2) as nat))
                by (nonlinear_arith);
            assert((s * 2) * (x / 2) <= s * x) by (nonlinear_arith)
                requires
                    x >= 0,
                    s >= 1,
            ;
        }
        x = x / 2;
        s = s * 2;
    }
    assert(f64_spacing(x as nat) == 1);
    assert(f64_spacing(bytes as nat) == s) by (nonlinear_arith)
        requires
            f64_spacing(bytes as nat) == s * f64_spacing(x as nat),
            f64_spacing(x as nat) == 1,
    ;
    proof {
        lemma_fundamental_div_mod(bytes as int, s as int);
        assert(s * x + (bytes as nat) % (s as nat) == bytes);
    }
    let r: u64 = bytes - s * x;
    assert(r == (bytes as nat) % (s as nat));
    let q: u128 = if 2 * (r as u128) > s as u128 || (2 * (r as u128) == s as u128 && x % 2 == 1) {
        x as u128 + 1
    } else {
        x as u128
    };
    assert(q == round_half_even(bytes as nat, s as nat));
    proof {
        assert((s as u128) * q <= 4096 * 18446744073709551616) by (nonlinear_arith)
            requires
                s <= 4096,
                q <= 18446744073709551616,
        ;
    }
    let v: u128 = (s as u128) * q;
    proof {
        assert(f64_spacing(bytes as nat) == s);
        assert(s * q <= s * x + s) by (nonlinear_arith)
            requires
                q <= x + 1,
        ;
    }
    v
}

/// The unit index and its size for the value `v`.
fn unit_for(v: u128) -> (r: (usize, u128))
    ensures
        r.0 == unit_of(v as nat),
        r.1 == pow1024(r.0 as nat),
        r.0 <= 4,
        r.0 < 4 ==> v < 1024 * r.1,
{
    proof {
        lemma_pow1024_values();
    }
    let mut u: usize = 0;
    let mut d: u128 = 1;
    while u < 4 && v >= d * 1024
        invariant
            u <= 4,
            d == pow1024(u as nat),
            unit_of(v as nat) == unit_from(v as nat, u as nat),
            d <= 1099511627776,
        decreases 4 - u,
    {
        proof {
            lemma_pow1024_values();
            assert(pow1024((u + 1) as nat) == 1024 * pow1024(u as nat));
            if u == 0 {
                assert(d == 1);
            } else if u == 1 {
                assert(d == 1024);
            } else if u == 2 {
                assert(d == 1048576);
            } else {
                assert(u == 3);
                assert(d == 1073741824);
            }
        }
        d = d * 1024;
        u = u + 1;
    }
    proof {
        assert(pow1024((u + 1) as nat) == 1024 * pow1024(u as nat));
    }
    (u, d)
}

/// The count of tenths shown for `bytes`.
fn tenths_of(bytes: u64) -> (t: u64)
    ensures
        t == shown_tenths(bytes),
{
    let v = double_value(bytes);
    let (u, d) = unit_for(v);
    proof {
        lemma_pow1024_values();
    }
    let n: u128 = v * 10;
    let q: u128 = n / d;
    let r: u128 = n % d;
    let t: u128 = if 2 * r > d || (2 * r == d && q % 2 == 1) {
        q + 1
    } else {
        q
    };
    assert(t == round_half_even(n as nat, d as nat));
    proof {
        lemma_fundamental_div_mod(n as int, d as int);
        assert(q * d <= n) by (nonlinear_arith)
            requires
                d * q + r == n,
                r >= 0,
        ;
        if u < 4 {
            assert(n < 10240 * d);
            assert(q < 10240) by (nonlinear_arith)
                requires
                    q * d <= n,
                    n < 10240 * d,
                    d > 0,
            ;
        } else {
            assert(d == 1099511627776);
            assert(q < 1000000000) by (nonlinear_arith)
                requires
                    q * d <= n,
                    n <= (18446744073709551615 + 2048) * 10,
                    d == 1099511627776,
            ;
        }
    }
    t as u64
}

fn push_unit(out: &mut String, u: usize)
    requires
        u <= 4,
    ensures
        final(out)@ == old(out)@ + unit_name(u as nat),
{
    if u == 0 {
        push_char(out, 'B');
    } else {
        let c = if u == 1 {
            'K'
        } else if u == 2 {
            'M'
        } else if u == 3 {
            'G'
        } else {
            'T'
        };
        push_char(out, c);
        push_char(out, 'B');
    }
    assert(final(out)@ =~= old(out)@ + unit_name(u as nat));
}

fn decimal_digits(n: u64) -> (v: Vec<char>)
    ensures
        v@ == decimal(n as nat),
    decreases n,
{
    let mut v: Vec<char> = if n >= 10 {
        decimal_digits(n / 10)
    } else {
        Vec::new()
    };
    let d: u8 = (n % 10) as u8;
    v.push((48u8 + d) as char);
    proof {
        if n < 10 {
            assert(v@ =~= seq![digit_char(n as nat)]);
        }
    }
    v
}

/// `bytes` for people, as `format!("{:>6.1} {:<2}", ..)` writes the count once
/// it is a double scaled to its unit.
pub fn human(bytes: u64) -> (s: String)
    ensures
        s@ == size_text(bytes),
{
    let t = tenths_of(bytes);
    let mut num = decimal_digits(t / 10);
    num.push('.');
    num.push((48u8 + (t % 10) as u8) as char);
    assert(num@ =~= shown_number(bytes));
    let mut out = String::new();
    if num.len() < 6 {
        push_spaces(&mut out, 6 - num.len());
    }
    push_chars(&mut out, &num);
    assert(out@ =~= pad_left(shown_number(bytes), 6));
    push_char(&mut out, ' ');
    let v = double_value(bytes);
    let (u, _d) = unit_for(v);
    let ghost before = out@;
    push_unit(&mut out, u);
    if u == 0 {
        push_char(&mut out, ' ');
        assert(out@ =~= before + pad_right(unit_name(0), 2));
    } else {
        assert(out@ =~= before + pad_right(unit_name(u as nat), 2));
    }
    out
}

/// `bytes` for people without the padding around it (`human(bytes).trim()`).
pub fn human_trimmed(bytes: u64) -> (s: String)
    ensures
        s@ == trimmed(size_text(bytes)),
        s@ == compact_size_text(bytes),
{
    let h = human(bytes);
    proof {
        lemma_trimmed_size_text(bytes);
    }
    trim(h.as_str())
}

} // verus!

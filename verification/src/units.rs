//! Human-readable byte counts.
//!
//! The byte count is shown in the largest decimal unit it reaches, with two
//! decimals. The value shown is the one the floating-point formula
//! `bytes as f64 / unit` yields: the byte count is first rounded to the
//! nearest double, the quotient is rounded to the nearest double, and that
//! double is printed with two decimals, ties going to the even digit. All of
//! this is modelled and computed here with exact integer arithmetic.

use vstd::prelude::*;
use vstd::arithmetic::power2::{pow2, lemma_pow2_unfold, lemma_pow2_adds, lemma_pow2_strictly_increases, lemma2_to64, lemma2_to64_rest, lemma_pow2_pos};
use vstd::arithmetic::div_mod::{lemma_fundamental_div_mod, lemma_mod_bound, lemma_div_is_ordered};
use crate::text::{decimal, digit_char, digit_of, push_char, append_decimal};

verus! {

/// The integer nearest to `num / den`, ties going to the even neighbour.
pub open spec fn round_half_even(num: nat, den: nat) -> nat {
    let q = num / den;
    let r = num % den;
    if 2 * r > den || (2 * r == den && q % 2 == 1) {
        q + 1
    } else {
        q
    }
}

/// The exponent of the highest set bit of `n` (0 for `n < 2`).
pub open spec fn floor_log2(n: nat) -> nat
    decreases n,
{
    if n < 2 {
        0
    } else {
        1 + floor_log2(n / 2)
    }
}

/// The number of trailing binary places dropped when `n` is rounded to a
/// 53-bit significand.
pub open spec fn u64_rounding_shift(n: nat) -> nat {
    if n < pow2(53) {
        0
    } else {
        (floor_log2(n) - 52) as nat
    }
}

/// The value of `n as f64`: `n` rounded to the nearest double.
pub open spec fn double_of_u64(n: nat) -> nat {
    let k = u64_rounding_shift(n);
    round_half_even(n, pow2(k)) * pow2(k)
}

/// The binary scale that brings `v / d` into `[2^52, 2^53)`.
pub open spec fn quotient_scale(v: nat, d: nat) -> nat {
    (52 - floor_log2(v / d)) as nat
}

/// The nearest double to `v / d`, as a significand over `2^quotient_scale(v, d)`.
pub open spec fn quotient_significand(v: nat, d: nat) -> nat {
    round_half_even(v * pow2(quotient_scale(v, d)), d)
}

/// The nearest double to `v / d`, printed with two decimals: its value in
/// hundredths, rounded half to even.
pub open spec fn quotient_hundredths(v: nat, d: nat) -> nat {
    round_half_even(quotient_significand(v, d) * 100, pow2(quotient_scale(v, d)))
}

/// `h` hundredths written with exactly two decimals, as in `{:.2}`.
pub open spec fn two_decimals(h: nat) -> Seq<char> {
    decimal(h / 100) + seq!['.', digit_char((h / 10) % 10), digit_char(h % 10)]
}

/// The text for `bytes` in the largest unit it reaches:
/// `"<v> GBytes"`, `"<v> MBytes"`, `"<v> KBytes"` with two decimals, or
/// `"<bytes> Bytes"` below a thousand.
pub open spec fn bytes_text(bytes: nat) -> Seq<char> {
    let v = double_of_u64(bytes);
    if bytes >= 1_000_000_000 {
        two_decimals(quotient_hundredths(v, 1_000_000_000)) + " GBytes"@
    } else if bytes >= 1_000_000 {
        two_decimals(quotient_hundredths(v, 1_000_000)) + " MBytes"@
    } else if bytes >= 1_000 {
        two_decimals(quotient_hundredths(v, 1_000)) + " KBytes"@
    } else {
        decimal(bytes) + " Bytes"@
    }
}

proof fn lemma_floor_log2_bounds(n: nat)
    requires
        n >= 1,
    ensures
        pow2(floor_log2(n)) <= n < pow2(floor_log2(n) + 1),
    decreases n,
{
    lemma_pow2_unfold(floor_log2(n) + 1);
    if n < 2 {
        assert(pow2(0) == 1) by { lemma2_to64(); }
    } else {
        lemma_floor_log2_bounds(n / 2);
        lemma_pow2_unfold(floor_log2(n / 2) + 1);
    }
}

proof fn lemma_floor_log2_below(n: nat, k: nat)
    requires
        1 <= n < pow2(k),
    ensures
        floor_log2(n) < k,
{
    lemma_floor_log2_bounds(n);
    if floor_log2(n) >= k {
        if floor_log2(n) > k {
            lemma_pow2_strictly_increases(k, floor_log2(n));
        }
    }
}

proof fn lemma_rne_bounds(num: nat, den: nat)
    requires
        den > 0,
    ensures
        num / den <= round_half_even(num, den) <= num / den + 1,
        (num / den) * den + num % den == num,
        num % den < den,
        (num / den) * den <= num,
{
    lemma_fundamental_div_mod(num as int, den as int);
    lemma_mod_bound(num as int, den as int);
    assert((num / den) * den == den * (num / den)) by (nonlinear_arith);
}

/// `round_half_even` on machine integers.
fn round_half_even_u128(num: u128, den: u128) -> (r: u128)
    requires
        den > 0,
        num < 0x10_0000_0000_0000_0000_0000_0000,
        den < 0x10_0000_0000_0000_0000_0000_0000,
    ensures
        r == round_half_even(num as nat, den as nat),
{
    let q = num / den;
    let rem = num % den;
    proof {
        lemma_rne_bounds(num as nat, den as nat);
        lemma_div_is_ordered(num as int, num as int, den as int);
        assert(num as int / den as int <= num) by (nonlinear_arith)
            requires den >= 1, num >= 0;
    }
    if 2 * rem > den || (2 * rem == den && q % 2 == 1) {
        q + 1
    } else {
        q
    }
}

/// `2^e` on machine integers.
fn pow2_u128(e: u32) -> (p: u128)
    requires
        e <= 64,
    ensures
        p == pow2(e as nat),
        p >= 1,
{
    let mut p: u128 = 1;
    let mut i: u32 = 0;
    proof { lemma2_to64(); }
    while i < e
        invariant
            i <= e <= 64,
            p == pow2(i as nat),
        decreases e - i,
    {
        proof {
            lemma_pow2_unfold((i + 1) as nat);
            lemma2_to64();
            if i + 1 < 64 {
                lemma_pow2_strictly_increases((i + 1) as nat, 64);
            }
        }
        p = p * 2;
        i = i + 1;
    }
    proof { lemma_pow2_pos(e as nat); }
    p
}

/// `floor_log2` on machine integers.
fn floor_log2_u128(n: u128) -> (l: u32)
    requires
        n >= 1,
        n < 0x1_0000_0000_0000_0000,
    ensures
        l == floor_log2(n as nat),
        l < 64,
{
    proof {
        lemma2_to64();
        lemma_floor_log2_below(n as nat, 64);
    }
    let mut y = n;
    let mut l: u32 = 0;
    while y >= 2
        invariant
            1 <= y <= n,
            l + floor_log2(y as nat) == floor_log2(n as nat),
            floor_log2(n as nat) < 64,
        decreases y,
    {
        y = y / 2;
        l = l + 1;
    }
    l
}

/// `double_of_u64` on machine integers.
fn double_of_u64_exec(n: u64) -> (v: u128)
    ensures
        v == double_of_u64(n as nat),
        v <= 0x1_0000_0000_0000_0800,
        n < pow2(53) ==> v == n,
        n >= pow2(53) ==> v >= n - 2048,
{
    proof {
        lemma2_to64();
        lemma2_to64_rest();
    }
    if n < 0x20_0000_0000_0000 {
        proof {
            assert(pow2(0) == 1);
            lemma_rne_bounds(n as nat, 1);
        }
        n as u128
    } else {
        let l = floor_log2_u128(n as u128);
        proof {
            lemma_floor_log2_bounds(n as nat);
            if l < 53 {
                lemma_pow2_strictly_increases(l as nat + 1, 54);
                if l + 1 < 53 { lemma_pow2_strictly_increases(l as nat + 1, 53); }
            }
        }
        let k = l - 52;
        proof {
            if k > 11 {
                lemma_pow2_adds(k as nat, 52);
                lemma_pow2_strictly_increases(12, k as nat);
                assert(pow2(64) <= pow2(l as nat)) by {
                    if l > 64 { lemma_pow2_strictly_increases(64, l as nat); }
                }
            }
            if k < 11 { lemma_pow2_strictly_increases(k as nat, 11); }
        }
        let p = pow2_u128(k);
        let r = round_half_even_u128(n as u128, p);
        proof {
            lemma_rne_bounds(n as nat, p as nat);
            assert(r * p <= n + p) by (nonlinear_arith)
                requires r <= n as int / p as int + 1, p > 0, (n as int / p as int) * p <= n;
            assert(r * p >= n - p) by (nonlinear_arith)
                requires r >= n as int / p as int, p > 0,
                    (n as int / p as int) * p + n as int % p as int == n,
                    (n as int % p as int) < p;
        }
        r * p
    }
}

proof fn lemma_scaled_bound(v: nat, d: nat, l: nat, e: nat)
    requires
        d >= 1,
        v >= d,
        v / d < pow2(l + 1),
        l + e == 52,
    ensures
        v * pow2(e) < d * pow2(53),
{
    lemma_pow2_adds(l + 1, e);
    lemma_pow2_pos(e);
    lemma_rne_bounds(v, d);
    let q = v / d;
    assert(d * (q + 1) == q * d + d) by (nonlinear_arith);
    assert(v < d * (q + 1));
    assert(q + 1 <= pow2(l + 1));
    assert(v * pow2(e) < d * pow2(l + 1) * pow2(e)) by (nonlinear_arith)
        requires v < d * (q + 1), q + 1 <= pow2(l + 1), pow2(e) > 0, d >= 1;
    assert(d * pow2(l + 1) * pow2(e) == d * pow2(53)) by (nonlinear_arith)
        requires pow2(l + 1) * pow2(e) == pow2(53);
}

/// `quotient_hundredths` on machine integers.
fn quotient_hundredths_exec(v: u128, d: u128) -> (h: u64)
    requires
        1 <= d <= 1_000_000_000,
        d <= v,
        v <= 0x1_0000_0000_0000_0800,
        v / d < pow2(53),
    ensures
        h == quotient_hundredths(v as nat, d as nat),
{
    proof {
        lemma2_to64();
        lemma2_to64_rest();
    }
    let q = v / d;
    proof {
        lemma_div_is_ordered(d as int, v as int, d as int);
        lemma_floor_log2_below(q as nat, 53);
        lemma_floor_log2_bounds(q as nat);
    }
    let l = floor_log2_u128(q);
    let e = 52 - l;
    proof {
        if e < 52 { lemma_pow2_strictly_increases(e as nat, 52); }
    }
    let p = pow2_u128(e);
    proof {
        lemma_scaled_bound(v as nat, d as nat, l as nat, e as nat);
        assert(d * pow2(53) <= 1_000_000_000 * pow2(53)) by (nonlinear_arith)
            requires d <= 1_000_000_000;
    }
    let scaled = v * p;
    let m = round_half_even_u128(scaled, d);
    proof {
        lemma_rne_bounds(scaled as nat, d as nat);
        lemma_div_is_ordered(scaled as int, (d * pow2(53)) as int, d as int);
        assert((d * pow2(53)) as int / d as int == pow2(53)) by (nonlinear_arith)
            requires d >= 1;
        if scaled as int / d as int == pow2(53) {
            assert(scaled as int >= d * pow2(53)) by (nonlinear_arith)
                requires scaled as int >= (scaled as int / d as int) * d,
                    scaled as int / d as int == pow2(53);
        }
    }
    let h = round_half_even_u128(m * 100, p);
    proof {
        lemma_rne_bounds((m * 100) as nat, p as nat);
        lemma_div_is_ordered((m * 100) as int, (m * 100) as int, p as int);
        assert((m * 100) as int / p as int <= m * 100) by (nonlinear_arith)
            requires p >= 1;
    }
    h as u64
}

/// Appends `h` hundredths with exactly two decimals.
fn append_two_decimals(s: &mut String, h: u64)
    ensures
        final(s)@ == old(s)@ + two_decimals(h as nat),
{
    append_decimal(s, h / 100);
    push_char(s, '.');
    push_char(s, digit_of((h / 10) % 10));
    push_char(s, digit_of(h % 10));
    assert(final(s)@ =~= old(s)@ + two_decimals(h as nat));
}

/// Formats a byte count in the largest decimal unit it reaches (see
/// `bytes_text`).
pub fn format_bytes(bytes: u64) -> (s: String)
    ensures
        s@ == bytes_text(bytes as nat),
{
    let mut s = String::new();
    if bytes >= 1_000 {
        let v = double_of_u64_exec(bytes);
        proof {
            lemma2_to64();
            lemma2_to64_rest();
        }
        if bytes >= 1_000_000_000 {
            proof {
                lemma_div_is_ordered(v as int, 0x1_0000_0000_0000_0800, 1_000_000_000);
            }
            let h = quotient_hundredths_exec(v, 1_000_000_000);
            append_two_decimals(&mut s, h);
            s.append(" GBytes");
        } else if bytes >= 1_000_000 {
            proof {
                lemma_div_is_ordered(v as int, 1_000_000_000, 1_000_000);
            }
            let h = quotient_hundredths_exec(v, 1_000_000);
            append_two_decimals(&mut s, h);
            s.append(" MBytes");
        } else {
            proof {
                lemma_div_is_ordered(v as int, 1_000_000, 1_000);
            }
            let h = quotient_hundredths_exec(v, 1_000);
            append_two_decimals(&mut s, h);
            s.append(" KBytes");
        }
    } else {
        append_decimal(&mut s, bytes);
        s.append(" Bytes");
    }
    assert(s@ =~= bytes_text(bytes as nat));
    s
}

} // verus!

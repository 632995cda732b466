//! How an integer reads once converted to `f64` with `as`: the nearest
//! `f64` (ties to an even mantissa), and the text that `Display` gives it,
//! the shortest decimal that converts back to the same `f64`, written out
//! without exponent.  Everything is computed on integers.

use vstd::prelude::*;
use crate::base::text::{decimal, push_char, push_decimal};

verus! {

/// 2^53: every integer up to it is exactly an `f64`.
pub open spec fn exact_limit() -> nat {
    9007199254740992
}

/// The spacing of the `f64` values around the integer `a`: 1 below 2^53,
/// doubling with each binade above.
pub open spec fn f64_unit(a: nat) -> nat
    decreases a,
{
    if a < exact_limit() {
        1
    } else {
        2 * f64_unit(a / 2)
    }
}

/// The `f64` nearest to `a`, ties going to the even mantissa.
pub open spec fn f64_round(a: nat) -> nat {
    let u = f64_unit(a);
    let q = a / u;
    let r = a % u;
    let up = 2 * r > u || (2 * r == u && q % 2 == 1);
    (if up {
        q + 1
    } else {
        q
    }) * u
}

/// 10^j.
pub open spec fn pow10(j: nat) -> nat
    decreases j,
{
    if j == 0 {
        1
    } else {
        10 * pow10((j - 1) as nat)
    }
}

/// Whether `c` converts back to the `f64` value `v`: `c` lies within half a
/// spacing of `v` (a quarter below when `v`'s mantissa is the lowest of its
/// binade), the ends included when `v`'s mantissa is even.
pub open spec fn reads_back(c: nat, v: nat) -> bool {
    let u = f64_unit(v);
    let m = v / u;
    let low4: int = if m == exact_limit() / 2 {
        u as int
    } else {
        2 * u as int
    };
    let high4: int = 2 * u as int;
    if m % 2 == 0 {
        4 * v - low4 <= 4 * c && 4 * c <= 4 * v + high4
    } else {
        4 * v - low4 < 4 * c && 4 * c < 4 * v + high4
    }
}

/// The multiple of `p` next to `v` that reads back as `v`, the closer one
/// when both do.
pub open spec fn pick(v: nat, p: nat) -> Option<nat> {
    let fl = (v - v % p) as nat;
    let ce = fl + p;
    if reads_back(fl, v) && reads_back(ce, v) {
        if v - fl <= ce - v {
            Some(fl)
        } else {
            Some(ce)
        }
    } else if reads_back(fl, v) {
        Some(fl)
    } else if reads_back(ce, v) {
        Some(ce)
    } else {
        None
    }
}

/// The number with the most trailing zeros, at most `j`, that reads back as
/// `v`: its digits are the shortest that give `v` back.
pub open spec fn shortest(v: nat, j: nat) -> nat
    decreases j,
{
    if j == 0 {
        v
    } else {
        match pick(v, pow10(j)) {
            Some(c) => c,
            None => shortest(v, (j - 1) as nat),
        }
    }
}

/// What `Display` writes for `v as f64`, for an integer `v` of magnitude
/// below 2^64 + 1.
pub open spec fn float_display(v: int) -> Seq<char> {
    let a: nat = if v < 0 {
        (-v) as nat
    } else {
        v as nat
    };
    let d = decimal(shortest(f64_round(a), 20));
    if v < 0 {
        seq!['-'] + d
    } else {
        d
    }
}

/// `(v as f64) as i64` for an `i64` `v`: the nearest `f64`, brought back
/// into the range of `i64` (2^63 becomes `i64::MAX`).
pub open spec fn float_as_i64(v: int) -> int {
    if v < 0 {
        -(f64_round((-v) as nat) as int)
    } else if f64_round(v as nat) > i64::MAX {
        i64::MAX as int
    } else {
        f64_round(v as nat) as int
    }
}

/// The spacing of the `f64` values around `a`, and `a` divided by it.
fn unit_of(a: u128) -> (r: (u128, u128))
    requires
        a <= 0x4_0000_0000_0000_0000u128,
    ensures
        r.0 == f64_unit(a as nat),
        r.1 == a as nat / f64_unit(a as nat),
        r.0 >= 1,
        r.0 == 1 || r.0 <= a,
        r.0 <= 0x4_0000_0000_0000_0000u128,
{
    let mut b = a;
    let mut u: u128 = 1;
    while b >= 9007199254740992
        invariant
            u >= 1,
            b == a as nat / u as nat,
            u * b <= a,
            u > 1 ==> b >= 1,
            f64_unit(a as nat) == u * f64_unit(b as nat),
            a <= 0x4_0000_0000_0000_0000u128,
        decreases b,
    {
        proof {
            vstd::arithmetic::div_mod::lemma_div_denominator(a as int, u as int, 2);
            let fb = f64_unit((b / 2) as nat);
            assert(f64_unit(b as nat) == 2 * fb);
            assert(u * (2 * fb) == (2 * u) * fb) by (nonlinear_arith);
            assert(2 * u <= u * b) by (nonlinear_arith)
                requires
                    b >= 2,
                    u >= 1,
            ;
            assert((2 * u) * (b / 2) <= u * b) by (nonlinear_arith)
                requires
                    u >= 1,
            ;
        }
        b = b / 2;
        u = u * 2;
    }
    proof {
        assert(f64_unit(b as nat) == 1);
        assert(f64_unit(a as nat) == u) by (nonlinear_arith)
            requires
                f64_unit(a as nat) == u * f64_unit(b as nat),
                f64_unit(b as nat) == 1,
        ;
        if u > 1 {
            assert(u <= u * b) by (nonlinear_arith)
                requires
                    b >= 1,
            ;
        }
    }
    (u, b)
}

/// The nearest `f64` to `a`, as an integer.
fn round_to_f64(a: u128) -> (r: u128)
    requires
        a <= 0x2_0000_0000_0000_0000u128,
    ensures
        r == f64_round(a as nat),
        r <= 0x4_0000_0000_0000_0000u128,
{
    let (u, q) = unit_of(a);
    proof {
        vstd::arithmetic::div_mod::lemma_fundamental_div_mod(a as int, u as int);
        vstd::arithmetic::div_mod::lemma_mod_bound(a as int, u as int);
    }
    let r = a % u;
    let up = 2 * r > u || (2 * r == u && q % 2 == 1);
    let m = if up {
        q + 1
    } else {
        q
    };
    proof {
        assert(m * u <= a + u) by (nonlinear_arith)
            requires
                m <= q + 1,
                u * q + r == a,
                r >= 0,
        ;
        assert(a + u <= 0x4_0000_0000_0000_0000u128);
    }
    m * u
}

/// Whether `c` reads back as the `f64` value `v` (see `reads_back`).
fn reads_back_exec(c: u128, v: u128, u: u128, m: u128) -> (r: bool)
    requires
        u == f64_unit(v as nat),
        m == v as nat / f64_unit(v as nat),
        v <= 0x4_0000_0000_0000_0000u128,
        c <= 0x10_0000_0000_0000_0000u128,
        u <= 0x4_0000_0000_0000_0000u128,
    ensures
        r == reads_back(c as nat, v as nat),
{
    let low4 = if m == 4503599627370496 {
        u
    } else {
        2 * u
    };
    let high4 = 2 * u;
    let c4 = 4 * c;
    let v4 = 4 * v;
    if m % 2 == 0 {
        v4 <= c4 + low4 && c4 <= v4 + high4
    } else {
        v4 < c4 + low4 && c4 < v4 + high4
    }
}

/// The number with the most trailing zeros that reads back as `v`.
fn shortest_exec(v: u128) -> (r: u128)
    requires
        v <= 0x4_0000_0000_0000_0000u128,
    ensures
        r == shortest(v as nat, 20),
        r <= 0x10_0000_0000_0000_0000u128,
{
    let (u, m) = unit_of(v);
    let mut j: u32 = 20;
    let mut p: u128 = 100_000_000_000_000_000_000;
    proof {
        reveal_with_fuel(pow10, 21);
    }
    loop
        invariant
            j <= 20,
            p == pow10(j as nat),
            p <= 100_000_000_000_000_000_000,
            p >= 1,
            shortest(v as nat, 20) == shortest(v as nat, j as nat),
            u == f64_unit(v as nat),
            m == v as nat / f64_unit(v as nat),
            v <= 0x4_0000_0000_0000_0000u128,
            u <= 0x4_0000_0000_0000_0000u128,
        decreases j,
    {
        if j == 0 {
            return v;
        }
        proof {
            vstd::arithmetic::div_mod::lemma_mod_bound(v as int, p as int);
            vstd::arithmetic::div_mod::lemma_mod_decreases(v as nat, p as nat);
        }
        let fl = v - v % p;
        let ce = fl + p;
        let fi = reads_back_exec(fl, v, u, m);
        let ci = reads_back_exec(ce, v, u, m);
        if fi && ci {
            if v - fl <= ce - v {
                return fl;
            } else {
                return ce;
            }
        } else if fi {
            return fl;
        } else if ci {
            return ce;
        }
        proof {
            assert(pow10(j as nat) == 10 * pow10((j - 1) as nat));
        }
        j = j - 1;
        p = p / 10;
    }
}

/// Appends what `Display` writes for `v as f64`.
pub fn push_float_display(out: &mut String, v: i128)
    requires
        -0x1_0000_0000_0000_0000i128 < v < 0x1_0000_0000_0000_0000i128,
    ensures
        final(out)@ == old(out)@ + float_display(v as int),
{
    let a: u128 = if v < 0 {
        (-v) as u128
    } else {
        v as u128
    };
    let c = shortest_exec(round_to_f64(a));
    if v < 0 {
        push_char(out, '-');
    }
    let ghost mid = out@;
    push_decimal(out, c);
    assert(final(out)@ =~= old(out)@ + float_display(v as int));
}

/// `(v as f64) as i64`: the nearest `f64`, saturated into `i64`.
pub fn float_as_i64_of(v: i64) -> (r: i64)
    ensures
        r == float_as_i64(v as int),
{
    if v < 0 {
        let a = round_to_f64((-(v as i128)) as u128);
        proof {
            assert(f64_round((-v) as nat) <= 9223372036854775808) by {
                lemma_round_at_most_power((-v) as nat);
            }
        }
        (-(a as i128)) as i64
    } else {
        let a = round_to_f64(v as u128);
        if a > 9223372036854775807 {
            9223372036854775807
        } else {
            a as i64
        }
    }
}

/// 2^e.
spec fn two_to(e: nat) -> nat
    decreases e,
{
    if e == 0 {
        1
    } else {
        2 * two_to((e - 1) as nat)
    }
}

proof fn lemma_unit_divides(a: nat, e: nat)
    requires
        a <= two_to(e),
    ensures
        two_to(e) % f64_unit(a) == 0,
    decreases a,
{
    if a >= exact_limit() {
        assert(e > 0);
        let e1 = (e - 1) as nat;
        lemma_unit_divides(a / 2, e1);
        let u1 = f64_unit(a / 2);
        lemma_unit_positive(a / 2);
        let t = two_to(e1) / u1;
        vstd::arithmetic::div_mod::lemma_fundamental_div_mod(two_to(e1) as int, u1 as int);
        assert(two_to(e) == t * (2 * u1)) by (nonlinear_arith)
            requires
                two_to(e1) == u1 * t,
                two_to(e) == 2 * two_to(e1),
        ;
        vstd::arithmetic::div_mod::lemma_mod_multiples_basic(t as int, (2 * u1) as int);
    }
}

proof fn lemma_round_at_most(a: nat, k: nat)
    requires
        a <= k,
        k % f64_unit(a) == 0,
    ensures
        f64_round(a) <= k,
{
    let u = f64_unit(a);
    assert(u >= 1) by {
        lemma_unit_positive(a);
    }
    let q = a / u;
    let r = a % u;
    vstd::arithmetic::div_mod::lemma_fundamental_div_mod(a as int, u as int);
    vstd::arithmetic::div_mod::lemma_fundamental_div_mod(k as int, u as int);
    vstd::arithmetic::div_mod::lemma_mod_bound(a as int, u as int);
    let kq = k / u;
    if q < kq {
        assert((q + 1) * u <= k) by (nonlinear_arith)
            requires
                q + 1 <= kq,
                k == u * kq,
                u >= 1,
        ;
    } else {
        assert(r == 0 && q == kq) by (nonlinear_arith)
            requires
                q >= kq,
                a == u * q + r,
                k == u * kq,
                a <= k,
                0 <= r < u,
                u >= 1,
        ;
        assert(q * u == a) by (nonlinear_arith)
            requires
                a == u * q + r,
                r == 0,
        ;
    }
}

proof fn lemma_unit_positive(a: nat)
    ensures
        f64_unit(a) >= 1,
    decreases a,
{
    if a >= exact_limit() {
        lemma_unit_positive(a / 2);
    }
}

proof fn lemma_round_at_most_power(a: nat)
    requires
        a <= 9223372036854775808,
    ensures
        f64_round(a) <= 9223372036854775808,
{
    assert(two_to(63) == 9223372036854775808) by {
        reveal_with_fuel(two_to, 64);
    }
    lemma_unit_divides(a, 63);
    lemma_round_at_most(a, 9223372036854775808);
}

} // verus!

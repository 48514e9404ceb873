//! IEEE-754 binary64 arithmetic on the ratios of resize geometry, in exact
//! integer arithmetic.
//!
//! The fit geometry scales sides by ratios of `u32` values computed in
//! `f64`: a quotient `a / b`, a product `c * (a / b)`, a quotient
//! `c / (a / b)`, then `round()` and a saturating cast back to `u32`. Every
//! such step rounds its exact result to 53 significant bits, ties to even.
//! A binary64 value that this module meets is represented as `m / 2^s`
//! ([`binary64`]); the rounding of each step is stated over exact rationals.

use vstd::arithmetic::div_mod::{lemma_fundamental_div_mod, lemma_fundamental_div_mod_converse, lemma_mod_pos_bound};
use vstd::prelude::*;

verus! {

/// `2^e`.
pub open spec fn two_to(e: nat) -> nat
    decreases e,
{
    if e == 0 {
        1
    } else {
        2 * two_to((e - 1) as nat)
    }
}

/// `n / d` rounded to the nearest integer, ties to even.
pub open spec fn rne(n: nat, d: nat) -> nat {
    let q = n / d;
    let r = n % d;
    if 2 * r > d || (2 * r == d && q % 2 == 1) {
        q + 1
    } else {
        q
    }
}

/// The least `s`, searched upward from `t` (and at most 200), with
/// `n * 2^s >= 2^52 * d`: the scale that puts `n / d` into
/// `[2^52, 2^53)`.
pub open spec fn exp_shift(n: nat, d: nat, t: nat) -> nat
    decreases 200 - t,
{
    if t >= 200 || n * two_to(t) >= two_to(52) * d {
        t
    } else {
        exp_shift(n, d, t + 1)
    }
}

/// The binary64 value nearest to `n / d` (ties to even), as `(m, s)` with
/// value `m / 2^s`: `n / d` scaled into `[2^52, 2^53)` and rounded to an
/// integer. Meant for `0 < n / d < 2^53`.
pub open spec fn binary64(n: nat, d: nat) -> (nat, nat) {
    let s = exp_shift(n, d, 0);
    (rne(n * two_to(s), d), s)
}

/// The least `k`, searched upward from `t` (and at most 100), with
/// `n < 2^53 * 2^k`.
pub open spec fn int_shift(n: nat, t: nat) -> nat
    decreases 100 - t,
{
    if t >= 100 || n < two_to(53) * two_to(t) {
        t
    } else {
        int_shift(n, t + 1)
    }
}

/// The integer `n` as a binary64 value (`n as f64`): itself below `2^53`,
/// otherwise rounded to 53 significant bits, ties to even.
pub open spec fn int_binary64(n: nat) -> nat {
    let k = int_shift(n, 0);
    rne(n, two_to(k)) * two_to(k)
}

/// `(n / d).round() as u32` for the binary64 value nearest to `n / d`
/// (`d > 0`): zero for zero, saturated at `u32::MAX` from `2^32` up,
/// otherwise the binary64 value rounded half away from zero.
pub open spec fn round_to_u32(n: nat, d: nat) -> u32 {
    if n == 0 {
        0
    } else if n >= two_to(32) * d {
        u32::MAX
    } else {
        let (m, s) = binary64(n, d);
        let r = (2 * m + two_to(s)) / (2 * two_to(s));
        if r > u32::MAX {
            u32::MAX
        } else {
            r as u32
        }
    }
}

/// `(c as f64 * (a as f64 / b as f64)).round() as u32`, for `b > 0`.
pub open spec fn mul_ratio_round(c: u32, a: u32, b: u32) -> u32 {
    if a == 0 {
        0
    } else {
        let (m, s) = binary64(a as nat, b as nat);
        round_to_u32((c as nat) * m, two_to(s))
    }
}

/// `(c as f64 / (a as f64 / b as f64)).round() as u32`, for `a, b > 0`.
pub open spec fn div_ratio_round(c: u32, a: u32, b: u32) -> u32 {
    let (m, s) = binary64(a as nat, b as nat);
    round_to_u32((c as nat) * two_to(s), m)
}

/// `(x as f64 * y as f64 / z as f64).round() as u32`, for `z > 0`.
pub open spec fn product_ratio_round(x: u32, y: u32, z: u32) -> u32 {
    round_to_u32(int_binary64((x as nat) * (y as nat)), z as nat)
}

/// `a as f64 / b as f64 > c as f64 / d as f64`, for `a, b, c, d > 0`.
pub open spec fn ratio_gt(a: u32, b: u32, c: u32, d: u32) -> bool {
    let (m1, s1) = binary64(a as nat, b as nat);
    let (m2, s2) = binary64(c as nat, d as nat);
    m1 * two_to(s2) > m2 * two_to(s1)
}

proof fn lemma_two_to_pos(e: nat)
    ensures
        two_to(e) >= 1,
    decreases e,
{
    if e > 0 {
        lemma_two_to_pos((e - 1) as nat);
    }
}

proof fn lemma_two_to_adds(a: nat, b: nat)
    ensures
        two_to(a + b) == two_to(a) * two_to(b),
    decreases b,
{
    if b > 0 {
        let b1 = (b - 1) as nat;
        lemma_two_to_adds(a, b1);
        assert((a + b - 1) as nat == a + b1);
        assert(two_to(a + b) == 2 * two_to(a + b1));
        assert(two_to(b) == 2 * two_to(b1));
        let x = two_to(a);
        let y = two_to(b1);
        assert(x * (2 * y) == 2 * (x * y)) by (nonlinear_arith);
    } else {
        assert(two_to(0) == 1);
        assert(a + b == a);
        let x = two_to(a);
        assert(x * 1 == x);
    }
}

proof fn lemma_two_to_mono(a: nat, b: nat)
    requires
        a <= b,
    ensures
        two_to(a) <= two_to(b),
    decreases b - a,
{
    if a < b {
        lemma_two_to_mono(a, (b - 1) as nat);
        lemma_two_to_pos((b - 1) as nat);
    }
}

proof fn lemma_two_to_small()
    ensures
        two_to(32) == 0x1_0000_0000,
        two_to(52) == 0x10_0000_0000_0000,
        two_to(53) == 0x20_0000_0000_0000,
        two_to(54) == 0x40_0000_0000_0000,
        two_to(11) == 0x800,
        two_to(20) == 0x10_0000,
        two_to(63) == 0x8000_0000_0000_0000,
        two_to(64) == 0x1_0000_0000_0000_0000,
{
    reveal_with_fuel(two_to, 65);
}

proof fn lemma_two_to_values()
    ensures
        two_to(32) == 0x1_0000_0000,
        two_to(52) == 0x10_0000_0000_0000,
        two_to(53) == 0x20_0000_0000_0000,
        two_to(54) == 0x40_0000_0000_0000,
        two_to(11) == 0x800,
        two_to(20) == 0x10_0000,
        two_to(64) == 0x1_0000_0000_0000_0000,
        two_to(84) == 0x10_0000_0000_0000_0000_0000,
        two_to(106) == 0x400_0000_0000_0000_0000_0000_0000,
        two_to(116) == 0x10_0000_0000_0000_0000_0000_0000_0000,
        two_to(117) == 0x20_0000_0000_0000_0000_0000_0000_0000,
        two_to(127) == 0x8000_0000_0000_0000_0000_0000_0000_0000,
{
    lemma_two_to_small();
    lemma_two_to_adds(53, 53);
    lemma_two_to_adds(63, 64);
    lemma_two_to_adds(32, 52);
    lemma_two_to_adds(52, 64);
    lemma_two_to_adds(53, 64);
}

/// The search of [`exp_shift`] stops at the first scale that satisfies
/// its test.
proof fn lemma_exp_shift(n: nat, d: nat, t: nat, s: nat)
    requires
        t <= s < 200,
        n * two_to(s) >= two_to(52) * d,
        forall|u: nat| t <= u < s ==> #[trigger] (n * two_to(u)) < two_to(52) * d,
    ensures
        exp_shift(n, d, t) == s,
    decreases s - t,
{
    if t < s {
        assert(n * two_to(t) < two_to(52) * d);
        lemma_exp_shift(n, d, t + 1, s);
    }
}

/// The search of [`int_shift`] stops at the first scale that satisfies its
/// test.
proof fn lemma_int_shift(n: nat, t: nat, k: nat)
    requires
        t <= k < 100,
        n < two_to(53) * two_to(k),
        forall|u: nat| t <= u < k ==> !(n < two_to(53) * #[trigger] two_to(u)),
    ensures
        int_shift(n, t) == k,
    decreases k - t,
{
    if t < k {
        assert(!(n < two_to(53) * two_to(t)));
        lemma_int_shift(n, t + 1, k);
    }
}

/// Rounding is unchanged when numerator and denominator are scaled alike.
proof fn lemma_rne_scale(n: nat, d: nat, k: nat)
    requires
        d > 0,
        k > 0,
    ensures
        rne(n * k, d * k) == rne(n, d),
{
    let q = n / d;
    let r = n % d;
    lemma_fundamental_div_mod(n as int, d as int);
    lemma_mod_pos_bound(n as int, d as int);
    assert(n * k == (d * k) * q + r * k) by (nonlinear_arith)
        requires n == d * q + r;
    assert(0 <= r * k < d * k) by (nonlinear_arith)
        requires 0 <= r < d, k > 0;
    assert(n * k == q * (d * k) + r * k) by (nonlinear_arith)
        requires n * k == (d * k) * q + r * k;
    lemma_fundamental_div_mod_converse((n * k) as int, (d * k) as int, q as int, (r * k) as int);
    assert((2 * (r * k) > d * k) == (2 * r > d)) by (nonlinear_arith)
        requires k > 0;
    assert((2 * (r * k) == d * k) == (2 * r == d)) by (nonlinear_arith)
        requires k > 0;
}

/// A value in `[2^52 d, 2^53 d]` rounds into `[2^52, 2^53]`.
proof fn lemma_rne_range(x: nat, d: nat)
    requires
        d > 0,
        two_to(52) * d <= x <= two_to(53) * d,
    ensures
        two_to(52) <= rne(x, d) <= two_to(53),
        2 * (rne(x, d) * d) <= 2 * x + d,
        2 * x <= 2 * (rne(x, d) * d) + d,
{
    lemma_two_to_values();
    let q = x / d;
    let r = x % d;
    lemma_fundamental_div_mod(x as int, d as int);
    lemma_mod_pos_bound(x as int, d as int);
    assert(two_to(52) <= q) by (nonlinear_arith)
        requires two_to(52) * d <= x, x == d * q + r, r < d, d > 0;
    assert(q <= two_to(53)) by (nonlinear_arith)
        requires x <= two_to(53) * d, x == d * q + r, r >= 0, d > 0;
    if q == two_to(53) {
        assert(r == 0) by (nonlinear_arith)
            requires x <= two_to(53) * d, x == d * q + r, q == two_to(53), r >= 0;
    }
    assert(2 * (q * d) <= 2 * x + d && 2 * x <= 2 * ((q + 1) * d) + d) by (nonlinear_arith)
        requires x == d * q + r, 0 <= r < d;
    if 2 * r > d || (2 * r == d && q % 2 == 1) {
        assert(2 * ((q + 1) * d) <= 2 * x + d) by (nonlinear_arith)
            requires x == d * q + r, 2 * r >= d;
        assert(2 * x <= 2 * ((q + 1) * d) + d) by (nonlinear_arith)
            requires x == d * q + r, r < d;
    } else {
        assert(2 * x <= 2 * (q * d) + d) by (nonlinear_arith)
            requires x == d * q + r, 2 * r <= d;
    }
}

fn two_to_exec(e: u32) -> (r: u128)
    requires
        e <= 127,
    ensures
        r == two_to(e as nat),
{
    proof {
        lemma_two_to_values();
        lemma_two_to_mono(e as nat, 127);
    }
    let mut r: u128 = 1;
    let mut i: u32 = 0;
    while i < e
        invariant
            i <= e <= 127,
            r == two_to(i as nat),
            two_to(e as nat) <= 0x8000_0000_0000_0000_0000_0000_0000_0000,
        decreases e - i,
    {
        proof {
            lemma_two_to_mono((i + 1) as nat, e as nat);
        }
        r = 2 * r;
        i = i + 1;
    }
    r
}

fn rne_exec(n: u128, d: u128) -> (r: u128)
    requires
        d > 0,
        n < 0x8000_0000_0000_0000_0000_0000_0000_0000,
    ensures
        r == rne(n as nat, d as nat),
{
    let q = n / d;
    let r = n % d;
    if r > d - r || (r == d - r && q % 2 == 1) {
        q + 1
    } else {
        q
    }
}

/// `binary64(n, d)` for `d <= 2^54` and `2^-54 <= n / d < 2^53`.
fn binary64_exec(n: u128, d: u128) -> (r: (u128, u32))
    requires
        0 < d <= 0x40_0000_0000_0000,
        0 < n,
        n < two_to(53) * d,
    ensures
        r.0 == binary64(n as nat, d as nat).0,
        r.1 == binary64(n as nat, d as nat).1,
        r.1 <= 106,
        d <= two_to(32) ==> r.1 <= 84,
        n < two_to(32) * d ==> r.1 >= 20,
        two_to(52) <= r.0 <= two_to(53),
        n * two_to(r.1 as nat) >= two_to(52) * d,
        n * two_to(r.1 as nat) <= two_to(53) * d,
{
    proof {
        lemma_two_to_values();
        assert(two_to(52) * d <= 0x400_0000_0000_0000_0000_0000_0000) by (nonlinear_arith)
            requires d <= 0x40_0000_0000_0000, two_to(52) == 0x10_0000_0000_0000;
        assert(two_to(0) == 1);
        assert(n * 1 == n);
    }
    let limit = 0x10_0000_0000_0000u128 * d;
    let mut p = n;
    let mut s: u32 = 0;
    while p < limit
        invariant
            limit == two_to(52) * d,
            limit <= 0x400_0000_0000_0000_0000_0000_0000,
            two_to(106) == 0x400_0000_0000_0000_0000_0000_0000,
            1 <= n,
            s <= 106,
            p == n * two_to(s as nat),
            forall|u: nat| u < s ==> #[trigger] (n * two_to(u)) < two_to(52) * d,
        decreases 106 - s,
    {
        proof {
            if s == 106 {
                assert(n * two_to(106) >= two_to(106)) by (nonlinear_arith)
                    requires n >= 1;
            }
            assert(s < 106);
            let t = two_to(s as nat);
            assert(two_to((s + 1) as nat) == 2 * t);
            assert(n * (2 * t) == 2 * (n * t)) by (nonlinear_arith);
        }
        p = 2 * p;
        s = s + 1;
    }
    proof {
        lemma_exp_shift(n as nat, d as nat, 0, s as nat);
        if s > 0 {
            let t = two_to((s - 1) as nat);
            assert(n * t < two_to(52) * d);
            assert(two_to(s as nat) == 2 * t);
            assert(p == 2 * (n * t)) by (nonlinear_arith)
                requires p == n * (2 * t);
            assert(p <= two_to(53) * d) by (nonlinear_arith)
                requires p == 2 * (n * t), n * t < two_to(52) * d, two_to(53) == 2 * two_to(52);
        }
        lemma_rne_range(p as nat, d as nat);
        if d <= two_to(32) && s > 84 {
            assert(n * two_to(84) < two_to(52) * d);
            lemma_two_to_adds(52, 32);
            assert(n * two_to(84) >= two_to(84)) by (nonlinear_arith)
                requires n >= 1;
            assert(two_to(52) * d <= two_to(52) * two_to(32)) by (nonlinear_arith)
                requires d <= two_to(32);
        }
        if n < two_to(32) * d && s < 20 {
            lemma_two_to_mono(s as nat, 20);
            lemma_two_to_adds(32, 20);
            reveal_with_fuel(two_to, 21);
            lemma_two_to_pos(s as nat);
            assert(n * two_to(s as nat) < two_to(52) * d) by (nonlinear_arith)
                requires n < two_to(32) * d, two_to(s as nat) <= two_to(20), two_to(52) == two_to(32) * two_to(20),
                    n >= 1, d >= 1, two_to(20) >= 1, two_to(s as nat) >= 1;
        }
    }
    (rne_exec(p, d), s)
}

/// [`round_to_u32`] for `d <= 2^54`.
pub fn round_to_u32_exec(n: u128, d: u128) -> (r: u32)
    requires
        0 < d <= 0x40_0000_0000_0000,
        n < 0x8000_0000_0000_0000_0000_0000_0000_0000,
    ensures
        r == round_to_u32(n as nat, d as nat),
{
    proof {
        lemma_two_to_values();
    }
    if n == 0 {
        return 0;
    }
    if n >= 0x1_0000_0000u128 * d {
        return u32::MAX;
    }
    proof {
        assert(n < two_to(53) * d) by (nonlinear_arith)
            requires n < two_to(32) * d, two_to(32) < two_to(53), d > 0;
    }
    let (m, s) = binary64_exec(n, d);
    let t = two_to_exec(s);
    proof {
        lemma_two_to_mono(s as nat, 106);
        lemma_two_to_pos(s as nat);
    }
    let q = (2 * m + t) / (2 * t);
    if q > 0xffff_ffffu128 {
        u32::MAX
    } else {
        q as u32
    }
}

/// [`round_to_u32`] of `p / 2^s`, for `2^52 <= p < 2^86` and `s <= 84`.
fn round_over_two_to(p: u128, s: u32) -> (r: u32)
    requires
        two_to(52) <= p < 0x40_0000_0000_0000_0000_0000,
        s <= 84,
    ensures
        r == round_to_u32(p as nat, two_to(s as nat)),
{
    proof {
        lemma_two_to_values();
        lemma_two_to_pos(s as nat);
    }
    let big = two_to_exec(32 + s);
    proof {
        lemma_two_to_adds(32, s as nat);
    }
    if p >= big {
        return u32::MAX;
    }
    // The least shift `t` with `p * 2^t >= 2^52 * 2^s`, that is with
    // `p >= 2^(52 + s - t)`; `t = s` always qualifies.
    let mut t: u32 = 0;
    while t < s && (52 + s - t > 127 || p < two_to_exec(52 + s - t))
        invariant
            t <= s <= 84,
            two_to(52) <= p < 0x40_0000_0000_0000_0000_0000,
            two_to(127) == 0x8000_0000_0000_0000_0000_0000_0000_0000,
            forall|u: nat| u < t ==> #[trigger] ((p as nat) * two_to(u)) < two_to(52) * two_to(s as nat),
        decreases s - t,
    {
        proof {
            let e = (52 + s - t) as nat;
            lemma_two_to_adds(e, t as nat);
            assert(e + t == 52 + s);
            lemma_two_to_adds(52, s as nat);
            if e > 127 {
                lemma_two_to_mono(127, e);
                assert(p < two_to(e));
            }
            lemma_two_to_pos(t as nat);
            assert((p as nat) * two_to(t as nat) < two_to(e) * two_to(t as nat)) by (nonlinear_arith)
                requires p < two_to(e), two_to(t as nat) >= 1;
        }
        t = t + 1;
    }
    proof {
        let e = (52 + s - t) as nat;
        lemma_two_to_adds(e, t as nat);
        lemma_two_to_adds(52, s as nat);
        lemma_two_to_pos(t as nat);
        if t == s {
            lemma_two_to_adds(52, s as nat);
            assert((p as nat) * two_to(s as nat) >= two_to(52) * two_to(s as nat)) by (nonlinear_arith)
                requires p >= two_to(52), two_to(s as nat) >= 1;
        } else {
            assert(p >= two_to(e));
            assert((p as nat) * two_to(t as nat) >= two_to(e) * two_to(t as nat)) by (nonlinear_arith)
                requires p >= two_to(e), two_to(t as nat) >= 1;
        }
        lemma_exp_shift(p as nat, two_to(s as nat), 0, t as nat);
    }
    let g = two_to_exec(s - t);
    proof {
        lemma_two_to_pos((s - t) as nat);
    }
    let m = rne_exec(p, g);
    let k = two_to_exec(t);
    proof {
        lemma_two_to_adds((s - t) as nat, t as nat);
        assert((s - t) as nat + t as nat == s as nat);
        lemma_two_to_pos((s - t) as nat);
        lemma_rne_scale(p as nat, g as nat, k as nat);
        assert(two_to(s as nat) == g * k);
        // The scaled value lies in [2^52 2^s, 2^53 2^s].
        if t > 0 {
            let t1 = (t - 1) as nat;
            assert((p as nat) * two_to(t1) < two_to(52) * two_to(s as nat));
            assert(two_to(t as nat) == 2 * two_to(t1));
            assert((p as nat) * two_to(t as nat) <= two_to(53) * two_to(s as nat)) by (nonlinear_arith)
                requires (p as nat) * two_to(t1) < two_to(52) * two_to(s as nat), two_to(t as nat) == 2 * two_to(t1),
                    two_to(53) == 2 * two_to(52);
        } else {
            assert(two_to(0) == 1);
            lemma_two_to_mono(32 + s as nat, 53 + s as nat);
            lemma_two_to_adds(53, s as nat);
            assert((p as nat) * two_to(0) <= two_to(53) * two_to(s as nat));
        }
        lemma_rne_range((p as nat) * (k as nat), two_to(s as nat));
        assert(m == rne((p as nat) * (k as nat), (g as nat) * (k as nat)));
    }
    proof {
        lemma_two_to_mono(t as nat, 84);
    }
    let q = (2 * m + k) / (2 * k);
    if q > 0xffff_ffffu128 {
        u32::MAX
    } else {
        q as u32
    }
}

/// [`mul_ratio_round`].
pub fn mul_ratio_round_exec(c: u32, a: u32, b: u32) -> (r: u32)
    requires
        b > 0,
    ensures
        r == mul_ratio_round(c, a, b),
{
    if a == 0 {
        return 0;
    }
    proof {
        lemma_two_to_values();
        assert((a as nat) < two_to(53) * (b as nat)) by (nonlinear_arith)
            requires a < two_to(32), b >= 1, two_to(32) < two_to(53);
    }
    let (m, s) = binary64_exec(a as u128, b as u128);
    if c == 0 {
        return 0;
    }
    proof {
        assert((c as nat) * m <= 0xffff_ffff * two_to(53)) by (nonlinear_arith)
            requires c <= 0xffff_ffff, m <= two_to(53);
        assert((c as nat) * m >= m) by (nonlinear_arith)
            requires c >= 1;
    }
    round_over_two_to((c as u128) * m, s)
}

/// [`div_ratio_round`].
pub fn div_ratio_round_exec(c: u32, a: u32, b: u32) -> (r: u32)
    requires
        a > 0,
        b > 0,
    ensures
        r == div_ratio_round(c, a, b),
{
    proof {
        lemma_two_to_values();
        assert((a as nat) < two_to(53) * (b as nat)) by (nonlinear_arith)
            requires a < two_to(32), b >= 1, two_to(32) < two_to(53);
    }
    let (m, s) = binary64_exec(a as u128, b as u128);
    let t = two_to_exec(s);
    proof {
        lemma_two_to_mono(s as nat, 84);
        assert((c as nat) * t < 0x10_0000_0000_0000_0000_0000_0000_0000) by (nonlinear_arith)
            requires c <= 0xffff_ffff, t <= 0x10_0000_0000_0000_0000_0000;
    }
    round_to_u32_exec((c as u128) * t, m)
}

/// [`int_binary64`] for `n < 2^64`.
fn int_binary64_exec(n: u128) -> (r: u128)
    requires
        n < 0x1_0000_0000_0000_0000,
    ensures
        r == int_binary64(n as nat),
        r <= 0x1_0000_0000_0000_0000,
{
    proof {
        lemma_two_to_values();
    }
    let mut k: u32 = 0;
    let mut big: u128 = 0x20_0000_0000_0000;
    proof {
        assert(two_to(0) == 1);
        assert(two_to(53) * 1 == two_to(53));
    }
    while n >= big
        invariant
            k <= 11,
            big == two_to(53) * two_to(k as nat),
            n < 0x1_0000_0000_0000_0000,
            forall|u: nat| u < k ==> !((n as nat) < two_to(53) * #[trigger] two_to(u)),
        decreases 11 - k,
    {
        proof {
            if k == 11 {
                lemma_two_to_values();
                assert(big == 0x1_0000_0000_0000_0000);
            }
            assert(k < 11);
            assert(two_to((k + 1) as nat) == 2 * two_to(k as nat));
            assert(two_to(53) * (2 * two_to(k as nat)) == 2 * (two_to(53) * two_to(k as nat))) by (nonlinear_arith);
        }
        big = 2 * big;
        k = k + 1;
    }
    proof {
        lemma_int_shift(n as nat, 0, k as nat);
    }
    let g = two_to_exec(k);
    let m = rne_exec(n, g);
    proof {
        lemma_two_to_pos(k as nat);
        if k == 0 {
            assert(two_to(0) == 1);
            assert(m == n);
        } else {
            let k1 = (k - 1) as nat;
            assert(two_to(k as nat) == 2 * two_to(k1));
            assert(two_to(53) * two_to(k1) <= n);
            assert(two_to(52) * g <= n) by (nonlinear_arith)
                requires two_to(53) * two_to(k1) <= n, g == 2 * two_to(k1), two_to(53) == 2 * two_to(52);
            assert(n <= two_to(53) * g);
            lemma_rne_range(n as nat, g as nat);
            lemma_two_to_mono(k as nat, 11);
            assert(m * g <= 0x1_0000_0000_0000_0000) by (nonlinear_arith)
                requires m <= 0x20_0000_0000_0000, g <= 0x800;
        }
    }
    assert(m * g <= 0x1_0000_0000_0000_0000) by {
        if k == 0 {
            assert(g == 1);
            assert(m * 1 == m);
        }
    }
    m * g
}

/// [`product_ratio_round`].
pub fn product_ratio_round_exec(x: u32, y: u32, z: u32) -> (r: u32)
    requires
        z > 0,
    ensures
        r == product_ratio_round(x, y, z),
{
    assert((x as nat) * (y as nat) < 0x1_0000_0000_0000_0000) by (nonlinear_arith)
        requires x <= 0xffff_ffff, y <= 0xffff_ffff;
    let n = int_binary64_exec((x as u128) * (y as u128));
    round_to_u32_exec(n, z as u128)
}

/// [`ratio_gt`].
pub fn ratio_gt_exec(a: u32, b: u32, c: u32, d: u32) -> (r: bool)
    requires
        a > 0,
        b > 0,
        c > 0,
        d > 0,
    ensures
        r == ratio_gt(a, b, c, d),
{
    proof {
        lemma_two_to_values();
        assert((a as nat) < two_to(32) * (b as nat)) by (nonlinear_arith)
            requires a < two_to(32), b >= 1;
        assert((c as nat) < two_to(32) * (d as nat)) by (nonlinear_arith)
            requires c < two_to(32), d >= 1;
        assert(b <= two_to(32) && d <= two_to(32));
    }
    let (m1, s1) = binary64_exec(a as u128, b as u128);
    let (m2, s2) = binary64_exec(c as u128, d as u128);
    if s1 <= s2 {
        let g = two_to_exec(s2 - s1);
        proof {
            lemma_two_to_mono((s2 - s1) as nat, 64);
            lemma_two_to_adds((s2 - s1) as nat, s1 as nat);
            assert((s2 - s1) as nat + s1 as nat == s2 as nat);
            lemma_two_to_pos(s1 as nat);
            let k = two_to(s1 as nat);
            assert((m1 * g > m2) == (m1 * (g * k) > m2 * k)) by (nonlinear_arith)
                requires k >= 1;
            assert(m1 * g <= two_to(53) * two_to(64)) by (nonlinear_arith)
                requires m1 <= two_to(53), g <= two_to(64);
            lemma_two_to_adds(53, 64);
            lemma_two_to_mono(117, 127);
        }
        m1 * g > m2
    } else {
        let g = two_to_exec(s1 - s2);
        proof {
            lemma_two_to_mono((s1 - s2) as nat, 64);
            lemma_two_to_adds((s1 - s2) as nat, s2 as nat);
            assert((s1 - s2) as nat + s2 as nat == s1 as nat);
            lemma_two_to_pos(s2 as nat);
            let k = two_to(s2 as nat);
            assert((m1 > m2 * g) == (m1 * k > m2 * (g * k))) by (nonlinear_arith)
                requires k >= 1;
            assert(m2 * g <= two_to(53) * two_to(64)) by (nonlinear_arith)
                requires m2 <= two_to(53), g <= two_to(64);
            lemma_two_to_adds(53, 64);
            lemma_two_to_mono(117, 127);
        }
        m1 > m2 * g
    }
}

/// What the search of [`exp_shift`] finds: a scale at least `t`, passing
/// its test unless the search gave up at 200, and no smaller scale from
/// `t` on passing it.
proof fn lemma_exp_shift_found(n: nat, d: nat, t: nat)
    ensures
        exp_shift(n, d, t) >= t,
        exp_shift(n, d, t) < 200 ==> n * two_to(exp_shift(n, d, t)) >= two_to(52) * d,
        forall|u: nat| t <= u < exp_shift(n, d, t) ==> #[trigger] (n * two_to(u)) < two_to(52) * d,
    decreases 200 - t,
{
    if t < 200 && n * two_to(t) < two_to(52) * d {
        lemma_exp_shift_found(n, d, t + 1);
    }
}

/// The binary64 value nearest to `n / d`, for `2^-140 <= n / d < 2^32`:
/// its scale is between 20 and 199, the scaled value lies in
/// `[2^52 d, 2^53 d]`, and the rounding error is at most half a unit.
proof fn lemma_binary64_bounds(n: nat, d: nat)
    requires
        1 <= n,
        1 <= d <= two_to(140),
        n < two_to(32) * d,
    ensures
        20 <= binary64(n, d).1 < 200,
        d <= two_to(32) ==> binary64(n, d).1 <= 84,
        two_to(52) * d <= n * two_to(binary64(n, d).1) <= two_to(53) * d,
        2 * (binary64(n, d).0 * d) <= 2 * (n * two_to(binary64(n, d).1)) + d,
        2 * (n * two_to(binary64(n, d).1)) <= 2 * (binary64(n, d).0 * d) + d,
{
    lemma_two_to_values();
    lemma_exp_shift_found(n, d, 0);
    let s = exp_shift(n, d, 0);
    lemma_two_to_adds(52, 140);
    if s > 192 {
        assert(n * two_to(192) < two_to(52) * d);
        lemma_two_to_pos(192);
        assert(n * two_to(192) >= two_to(192)) by (nonlinear_arith)
            requires n >= 1;
        lemma_two_to_pos(52);
        assert(two_to(52) * d <= two_to(52) * two_to(140)) by (nonlinear_arith)
            requires d <= two_to(140);
    }
    assert(s <= 192);
    if d <= two_to(32) && s > 84 {
        assert(n * two_to(84) < two_to(52) * d);
        lemma_two_to_adds(52, 32);
        assert(n * two_to(84) >= two_to(84)) by (nonlinear_arith)
            requires n >= 1;
        assert(two_to(52) * d <= two_to(52) * two_to(32)) by (nonlinear_arith)
            requires d <= two_to(32);
    }
    if s < 20 {
        lemma_two_to_mono(s, 20);
        lemma_two_to_pos(s);
        lemma_two_to_adds(32, 20);
        assert(n * two_to(s) < two_to(52) * d) by (nonlinear_arith)
            requires n < two_to(32) * d, two_to(s) <= two_to(20), two_to(52) == two_to(32) * two_to(20),
                two_to(s) >= 1;
    }
    let s1 = (s - 1) as nat;
    assert(n * two_to(s1) < two_to(52) * d);
    assert(two_to(s) == 2 * two_to(s1));
    assert(n * two_to(s) <= two_to(53) * d) by (nonlinear_arith)
        requires n * two_to(s1) < two_to(52) * d, two_to(s) == 2 * two_to(s1), two_to(53) == 2 * two_to(52);
    lemma_rne_range(n * two_to(s), d);
}

/// Rounding a ratio at most `b * (1 + 2^-52)` (for `b < 2^32`) to binary64
/// and then to an integer never exceeds `b`.
pub proof fn lemma_round_to_u32_le(n: nat, d: nat, b: nat)
    requires
        1 <= d <= two_to(140),
        b <= 0xffff_ffff,
        two_to(52) * n <= b * d * (two_to(52) + 1),
    ensures
        round_to_u32(n, d) <= b,
{
    lemma_two_to_values();
    if n > 0 {
        assert(n < two_to(32) * d) by (nonlinear_arith)
            requires two_to(52) * n <= b * d * (two_to(52) + 1), b <= 0xffff_ffff, d >= 1,
                two_to(52) == 0x10_0000_0000_0000, two_to(32) == 0x1_0000_0000;
        lemma_binary64_bounds(n, d);
        let (m, s) = binary64(n, d);
        let p = two_to(s);
        lemma_two_to_mono(20, s);
        let x = n * p;
        assert(two_to(52) * (2 * (m * d)) <= 2 * p * (b * d * (two_to(52) + 1)) + two_to(52) * d) by (nonlinear_arith)
            requires 2 * (m * d) <= 2 * x + d, x == n * p, two_to(52) * n <= b * d * (two_to(52) + 1), p >= 0;
        assert(2 * p * (b * d * (two_to(52) + 1)) + two_to(52) * d < two_to(52) * ((2 * b + 1) * p * d)) by (nonlinear_arith)
            requires p >= two_to(20), b <= 0xffff_ffff, d >= 1, two_to(20) == 0x10_0000, two_to(52) == 0x10_0000_0000_0000;
        assert(2 * m < (2 * b + 1) * p) by (nonlinear_arith)
            requires two_to(52) * (2 * (m * d)) < two_to(52) * ((2 * b + 1) * p * d), d >= 1, two_to(52) > 0;
        let r = (2 * m + p) / (2 * p);
        assert(r <= b) by (nonlinear_arith)
            requires 2 * m < (2 * b + 1) * p, p >= 1, r == (2 * m + p) / (2 * p);
    }
}

/// `c * (a / b)` in `f64`, rounded, is at most `bound` when the exact
/// `c * a / b` is.
pub proof fn lemma_mul_ratio_round_le(c: u32, a: u32, b: u32, bound: u32)
    requires
        b > 0,
        (c as nat) * (a as nat) <= (bound as nat) * (b as nat),
    ensures
        mul_ratio_round(c, a, b) <= bound,
{
    lemma_two_to_values();
    if a > 0 {
        assert((a as nat) < two_to(32) * (b as nat)) by (nonlinear_arith)
            requires a <= 0xffff_ffff, b >= 1, two_to(32) == 0x1_0000_0000;
        lemma_two_to_mono(32, 140);
        lemma_binary64_bounds(a as nat, b as nat);
        let (m, s) = binary64(a as nat, b as nat);
        let p = two_to(s);
        lemma_two_to_mono(s, 140);
        lemma_two_to_mono(20, s);
        // m / 2^s <= (a / b) (1 + 2^-53): 2 m b <= 2 a p + b and b <= a p / 2^52.
        assert(two_to(52) * ((c as nat) * m) <= (bound as nat) * p * (two_to(52) + 1)) by (nonlinear_arith)
            requires 2 * (m * b) <= 2 * (a * p) + b, two_to(52) * b <= a * p, c * a <= bound * b, b >= 1,
                two_to(52) == 0x10_0000_0000_0000, p >= 1;
        lemma_round_to_u32_le((c as nat) * m, p, bound as nat);
    }
}

/// What the search of [`int_shift`] finds: a scale at least `t`, passing
/// its test unless the search gave up at 100, and no smaller scale from `t`
/// on passing it.
proof fn lemma_int_shift_found(n: nat, t: nat)
    ensures
        int_shift(n, t) >= t,
        int_shift(n, t) < 100 ==> n < two_to(53) * two_to(int_shift(n, t)),
        forall|u: nat| t <= u < int_shift(n, t) ==> !(n < two_to(53) * #[trigger] two_to(u)),
    decreases 100 - t,
{
    if t < 100 && !(n < two_to(53) * two_to(t)) {
        lemma_int_shift_found(n, t + 1);
    }
}

/// An integer below `2^64` as a binary64 value is at most `n (1 + 2^-53)`.
proof fn lemma_int_binary64_le(n: nat)
    requires
        n < two_to(64),
    ensures
        two_to(53) * int_binary64(n) <= (two_to(53) + 1) * n,
{
    lemma_two_to_values();
    lemma_int_shift_found(n, 0);
    let k = int_shift(n, 0);
    lemma_two_to_adds(53, 11);
    if k > 11 {
        assert(!(n < two_to(53) * two_to(11)));
    }
    assert(k <= 11);
    let g = two_to(k);
    lemma_two_to_pos(k);
    if k == 0 {
        assert(g == 1);
        assert(rne(n, 1) == n);
        assert(int_binary64(n) == n);
        assert(two_to(53) * n <= (two_to(53) + 1) * n) by (nonlinear_arith);
    } else {
        let k1 = (k - 1) as nat;
        assert(!(n < two_to(53) * two_to(k1)));
        assert(g == 2 * two_to(k1));
        assert(two_to(52) * g <= n) by (nonlinear_arith)
            requires two_to(53) * two_to(k1) <= n, g == 2 * two_to(k1), two_to(53) == 2 * two_to(52);
        lemma_rne_range(n, g);
        let q = rne(n, g);
        assert(two_to(53) * (q * g) <= (two_to(53) + 1) * n) by (nonlinear_arith)
            requires 2 * (q * g) <= 2 * n + g, two_to(52) * g <= n, two_to(53) == 2 * two_to(52);
    }
}

/// `x * y / z` computed in `f64`, rounded, is at most `bound` when the
/// exact `x * y / z` is.
pub proof fn lemma_product_ratio_round_le(x: u32, y: u32, z: u32, bound: u32)
    requires
        z > 0,
        (x as nat) * (y as nat) <= (bound as nat) * (z as nat),
    ensures
        product_ratio_round(x, y, z) <= bound,
{
    lemma_two_to_values();
    let n = (x as nat) * (y as nat);
    assert(n < two_to(64)) by (nonlinear_arith)
        requires n == (x as nat) * (y as nat), x <= 0xffff_ffff, y <= 0xffff_ffff, two_to(64) == 0x1_0000_0000_0000_0000;
    lemma_int_binary64_le(n);
    let ib = int_binary64(n);
    assert(two_to(52) * ib <= (bound as nat) * (z as nat) * (two_to(52) + 1)) by (nonlinear_arith)
        requires two_to(53) * ib <= (two_to(53) + 1) * n, n <= bound * z, two_to(53) == 2 * two_to(52);
    lemma_two_to_mono(32, 140);
    lemma_round_to_u32_le(ib, z as nat, bound as nat);
}

} // verus!

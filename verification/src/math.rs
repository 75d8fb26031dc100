//! Arithmetic facts about reduction modulo the group order, used to reason
//! about scalar arithmetic and discrete logarithms of group elements.

use vstd::prelude::*;

use crate::{gmod, group_order};
use vstd::arithmetic::div_mod::{
    lemma_add_mod_noop, lemma_add_mod_noop_right, lemma_fundamental_div_mod,
    lemma_mod_add_multiples_vanish, lemma_mod_bound, lemma_mod_self_0,
    lemma_mul_mod_noop_general, lemma_mul_mod_noop_right, lemma_small_mod, lemma_sub_mod_noop,
    lemma_sub_mod_noop_right,
};

verus! {

/// Reduction lands in the canonical range.
pub proof fn lemma_gmod_range(a: int)
    ensures
        0 <= gmod(a) < group_order(),
{
    lemma_mod_bound(a, group_order());
}

/// Reduction is the identity on the canonical range.
pub proof fn lemma_gmod_small(a: int)
    requires
        0 <= a < group_order(),
    ensures
        gmod(a) == a,
{
    lemma_small_mod(a as nat, group_order() as nat);
}

pub proof fn lemma_gmod_idempotent(a: int)
    ensures
        gmod(gmod(a)) == gmod(a),
{
    lemma_gmod_range(a);
    lemma_gmod_small(gmod(a));
}

/// Reducing the summands before adding does not change the reduced sum.
pub proof fn lemma_gmod_add(a: int, b: int)
    ensures
        gmod(gmod(a) + gmod(b)) == gmod(a + b),
{
    lemma_add_mod_noop(a, b, group_order());
    lemma_gmod_idempotent(a + b);
}

/// Reducing either side before subtracting does not change the reduced difference.
pub proof fn lemma_gmod_sub(a: int, b: int)
    ensures
        gmod(gmod(a) - gmod(b)) == gmod(a - b),
{
    lemma_sub_mod_noop(a, b, group_order());
    lemma_gmod_idempotent(a - b);
}

/// Reducing either factor before multiplying does not change the reduced product.
pub proof fn lemma_gmod_mul(a: int, b: int)
    ensures
        gmod(gmod(a) * gmod(b)) == gmod(a * b),
{
    lemma_mul_mod_noop_general(a, b, group_order());
}

/// A summand may be reduced without changing the reduced sum.
pub proof fn lemma_gmod_add_right(x: int, y: int)
    ensures
        gmod(x + gmod(y)) == gmod(x + y),
{
    lemma_add_mod_noop_right(x, y, group_order());
}

/// A subtrahend may be reduced without changing the reduced difference.
pub proof fn lemma_gmod_sub_right(x: int, y: int)
    ensures
        gmod(x - gmod(y)) == gmod(x - y),
{
    lemma_sub_mod_noop_right(x, y, group_order());
}

/// A minuend may be reduced without changing the reduced difference.
pub proof fn lemma_gmod_sub_left(x: int, y: int)
    ensures
        gmod(gmod(x) - y) == gmod(x - y),
{
    lemma_sub_mod_noop_right(gmod(x), y, group_order());
    lemma_sub_mod_noop(x, y, group_order());
    lemma_gmod_idempotent(x);
}

/// A factor may be reduced without changing the reduced product.
pub proof fn lemma_gmod_mul_right(x: int, y: int)
    ensures
        gmod(x * gmod(y)) == gmod(x * y),
{
    lemma_mul_mod_noop_right(x, y, group_order());
}

/// A first summand may be reduced without changing the reduced sum.
pub proof fn lemma_gmod_add_left(x: int, y: int)
    ensures
        gmod(gmod(x) + y) == gmod(x + y),
{
    lemma_add_mod_noop_right(y, x, group_order());
}

/// A first factor may be reduced without changing the reduced product.
pub proof fn lemma_gmod_mul_left(x: int, y: int)
    ensures
        gmod(gmod(x) * y) == gmod(x * y),
{
    vstd::arithmetic::div_mod::lemma_mul_mod_noop_left(x, y, group_order());
}

/// Congruent second factors give congruent products.
pub proof fn lemma_gmod_mul_congruent(x: int, a: int, b: int)
    requires
        gmod(a) == gmod(b),
    ensures
        gmod(x * a) == gmod(x * b),
{
    lemma_gmod_mul_right(x, a);
    lemma_gmod_mul_right(x, b);
}

/// Congruent summands give congruent sums.
pub proof fn lemma_gmod_add_congruent(x: int, a: int, b: int)
    requires
        gmod(a) == gmod(b),
    ensures
        gmod(x + a) == gmod(x + b),
{
    lemma_gmod_add_right(x, a);
    lemma_gmod_add_right(x, b);
}

/// Congruent subtrahends give congruent differences.
pub proof fn lemma_gmod_sub_congruent(x: int, a: int, b: int)
    requires
        gmod(a) == gmod(b),
    ensures
        gmod(x - a) == gmod(x - b),
{
    lemma_gmod_sub_right(x, a);
    lemma_gmod_sub_right(x, b);
}

/// Decryption undoes encryption: subtracting `sk` times the first component's
/// logarithm from the second component's recovers the encrypted value, up to
/// reduction.  Here `beta` is the blinding base's logarithm, `sk` the secret
/// key, `v` the value and `r` the encryption blinding.
pub proof fn lemma_dec_of_enc(beta: int, sk: int, v: int, r: int)
    ensures
        gmod(gmod(v + r * gmod(sk * beta)) - sk * gmod(r * beta)) == gmod(v),
{
    let ay = v + r * gmod(sk * beta);
    let s = sk * gmod(r * beta);
    lemma_gmod_sub_left(ay, s);
    lemma_gmod_mul_right(sk, r * beta);
    lemma_gmod_sub_congruent(ay, s, sk * (r * beta));
    assert(ay - sk * (r * beta) == (v - sk * (r * beta)) + r * gmod(sk * beta));
    lemma_gmod_mul_right(r, sk * beta);
    lemma_gmod_add_congruent(v - sk * (r * beta), r * gmod(sk * beta), r * (sk * beta));
    assert(sk * (r * beta) == r * (sk * beta)) by (nonlinear_arith);
}

/// Decrypting a componentwise sum of ciphertexts gives the reduced sum of the
/// two decryptions.
pub proof fn lemma_dec_hom_add(sk: int, x1: int, y1: int, x2: int, y2: int)
    ensures
        gmod(gmod(y1 + y2) - sk * gmod(x1 + x2)) == gmod((y1 - sk * x1) + (y2 - sk * x2)),
{
    let s = sk * gmod(x1 + x2);
    lemma_gmod_sub_left(y1 + y2, s);
    lemma_gmod_mul_right(sk, x1 + x2);
    lemma_gmod_sub_congruent(y1 + y2, s, sk * (x1 + x2));
    assert(sk * (x1 + x2) == sk * x1 + sk * x2) by (nonlinear_arith);
}

/// Decrypting a componentwise difference of ciphertexts gives the reduced
/// difference of the two decryptions.
pub proof fn lemma_dec_hom_sub(sk: int, x1: int, y1: int, x2: int, y2: int)
    ensures
        gmod(gmod(y1 - y2) - sk * gmod(x1 - x2)) == gmod((y1 - sk * x1) - (y2 - sk * x2)),
{
    let s = sk * gmod(x1 - x2);
    lemma_gmod_sub_left(y1 - y2, s);
    lemma_gmod_mul_right(sk, x1 - x2);
    lemma_gmod_sub_congruent(y1 - y2, s, sk * (x1 - x2));
    assert(sk * (x1 - x2) == sk * x1 - sk * x2) by (nonlinear_arith);
}

/// The heart of Sigma-protocol completeness: with response `z = u + c * r`
/// reduced, base logarithm `alpha`, commitment logarithm `u * alpha` and any
/// `t` congruent to `r * alpha`, the verifier's equation holds:
/// `z * alpha == u * alpha + c * t` up to reduction.
pub proof fn lemma_schnorr_check(alpha: int, u: int, c: int, r: int, t: int)
    requires
        gmod(t) == gmod(r * alpha),
    ensures
        gmod(gmod(u + c * r) * alpha) == gmod(gmod(u * alpha) + c * t),
{
    lemma_gmod_mul_left(u + c * r, alpha);
    assert((u + c * r) * alpha == u * alpha + c * (r * alpha)) by (nonlinear_arith);
    lemma_gmod_add_left(u * alpha, c * t);
    lemma_gmod_mul_congruent(c, t, r * alpha);
    lemma_gmod_add_congruent(u * alpha, c * t, c * (r * alpha));
}

/// The two-base variant of Sigma-protocol completeness: with responses
/// `z1 = u1 + c * r1` and `z2 = u2 + c * r2` reduced, the verifier's combined
/// equation over two bases holds for any `t` congruent to
/// `r1 * a1 + r2 * a2`.
pub proof fn lemma_schnorr_check_two(
    a1: int,
    a2: int,
    u1: int,
    u2: int,
    c: int,
    r1: int,
    r2: int,
    t: int,
)
    requires
        gmod(t) == gmod(r1 * a1 + r2 * a2),
    ensures
        gmod(gmod(u1 + c * r1) * a1 + gmod(u2 + c * r2) * a2) == gmod(
            gmod(u1 * a1 + u2 * a2) + c * t,
        ),
{
    let z1 = u1 + c * r1;
    let z2 = u2 + c * r2;
    // Reduce away the inner gmods on the left.
    lemma_gmod_mul_left(z1, a1);
    lemma_gmod_add_congruent(gmod(z2) * a2, gmod(z1) * a1, z1 * a1);
    lemma_gmod_mul_left(z2, a2);
    lemma_gmod_add_congruent(z1 * a1, gmod(z2) * a2, z2 * a2);
    assert(gmod(gmod(z1) * a1 + gmod(z2) * a2) == gmod(z1 * a1 + z2 * a2));
    // Reduce away the inner gmods on the right.
    lemma_gmod_add_left(u1 * a1 + u2 * a2, c * t);
    lemma_gmod_mul_congruent(c, t, r1 * a1 + r2 * a2);
    lemma_gmod_add_congruent(u1 * a1 + u2 * a2, c * t, c * (r1 * a1 + r2 * a2));
    assert(z1 * a1 + z2 * a2 == (u1 * a1 + u2 * a2) + c * (r1 * a1 + r2 * a2))
        by (nonlinear_arith)
        requires
            z1 == u1 + c * r1,
            z2 == u2 + c * r2,
    ;
}

/// A simulated commitment passes its check by construction: subtracting
/// `c * t` when committing and adding it back when checking cancels.
pub proof fn lemma_simulated_check(w: int, c: int, t: int)
    requires
        0 <= t < group_order(),
    ensures
        gmod(gmod(gmod(w) - gmod(c * t)) + c * t) == gmod(w),
{
    let x = gmod(w) - gmod(c * t);
    lemma_gmod_add_left(x, c * t);
    lemma_sub_mod_noop_right(c * t, c * t, group_order());
    lemma_mod_self_0(group_order());
    lemma_gmod_small(0);
    assert(gmod(c * t - gmod(c * t)) == 0);
    lemma_gmod_add_right(gmod(w), c * t - gmod(c * t));
    assert(x + c * t == gmod(w) + (c * t - gmod(c * t)));
    lemma_gmod_idempotent(w);
}

/// Completing a split challenge: adding the reduced remainder `c - s` back
/// to `s` gives `c` again.
pub proof fn lemma_split_challenge(s: int, c: int)
    requires
        0 <= c < group_order(),
    ensures
        gmod(s + gmod(c - s)) == c,
{
    lemma_gmod_add_right(s, c - s);
    lemma_gmod_small(c);
}

/// A reduced value within a window below the modulus is recovered exactly:
/// if `gmod(d - j * w) == i` with everything small enough, `d == i + j * w`.
pub proof fn lemma_bsgs_exact(d: int, i: int, j: int, w: int)
    requires
        0 <= d < group_order(),
        0 <= i < w,
        0 <= j < w,
        w == 0x10000,
        gmod(d - j * w) == i,
    ensures
        d == i + j * w,
{
    let m = group_order();
    let diff = d - j * w;
    assert(j * w <= 0xffff * 0x10000) by (nonlinear_arith)
        requires 0 <= j <= 0xffff && w == 0x10000;
    assert(j * w >= 0) by (nonlinear_arith)
        requires j >= 0 && w > 0;
    if diff >= 0 {
        lemma_gmod_small(diff);
    } else {
        lemma_mod_add_multiples_vanish(diff, m);
        lemma_gmod_small(diff + m);
        assert(false);
    }
}

/// Splitting a value below `2^32` at the low sixteen bits leaves a residue
/// the reduced giant-step difference reproduces.
pub proof fn lemma_bsgs_split(d: int)
    requires
        0 <= d < 0x100000000,
    ensures
        0 <= d / 0x10000 < 0x10000,
        0 <= d - (d / 0x10000) * 0x10000 < 0x10000,
        gmod(d - (d / 0x10000) * 0x10000) == d - (d / 0x10000) * 0x10000,
{
    lemma_fundamental_div_mod(d, 0x10000);
    lemma_mod_bound(d, 0x10000);
    assert(d / 0x10000 < 0x10000) by (nonlinear_arith)
        requires 0 <= d < 0x100000000;
    lemma_gmod_small(d - (d / 0x10000) * 0x10000);
}

} // verus!

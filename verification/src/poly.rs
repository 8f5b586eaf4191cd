//! Polynomials over GF(2^8), as sequences of coefficients with the
//! constant term first, and the facts behind Lagrange interpolation.
use vstd::prelude::*;

use crate::gf256::{
    gf256_mul, gf_inv, gf_mul, lemma_gf_inv, lemma_mul_associative, lemma_mul_commutative,
    lemma_mul_distributive, lemma_mul_distributive_left, lemma_mul_zero_one,
    lemma_no_zero_divisors, lemma_xor_facts, lemma_xor_swap,
};

verus! {

/// The value at `x` of the polynomial with coefficients `c`, by Horner's rule:
/// `c[0] + x * (c[1] + x * (c[2] + ...))`.
pub open spec fn peval(c: Seq<u8>, x: u8) -> u8
    decreases c.len(),
{
    if c.len() == 0 {
        0
    } else {
        gf_mul(peval(c.drop_first(), x), x) ^ c[0]
    }
}

/// `n` zero coefficients.
pub open spec fn zeros(n: nat) -> Seq<u8> {
    Seq::new(n, |i: int| 0u8)
}

/// Coefficientwise sum of two polynomials of the same length.
pub open spec fn padd(a: Seq<u8>, b: Seq<u8>) -> Seq<u8> {
    Seq::new(a.len(), |i: int| a[i] ^ b[i])
}

/// The polynomial `s * a(x)`.
pub open spec fn pscale(a: Seq<u8>, s: u8) -> Seq<u8> {
    Seq::new(a.len(), |i: int| gf_mul(s, a[i]))
}

/// The polynomial `s(x) + c`.
pub open spec fn add_const(s: Seq<u8>, c: u8) -> Seq<u8> {
    s.update(0, s[0] ^ c)
}

/// The coefficients of `(x + r) * b(x)`.
pub open spec fn pmul_linear(b: Seq<u8>, r: u8) -> Seq<u8>
    decreases b.len(),
{
    if b.len() == 0 {
        seq![0u8]
    } else {
        seq![gf_mul(r, b[0])] + add_const(pmul_linear(b.drop_first(), r), b[0])
    }
}

/// The quotient of `c(x)` divided by `(x + r)`.
pub open spec fn synth_div(c: Seq<u8>, r: u8) -> Seq<u8>
    decreases c.len(),
{
    if c.len() <= 1 {
        Seq::<u8>::empty()
    } else {
        seq![peval(c.drop_first(), r)] + synth_div(c.drop_first(), r)
    }
}

/// No value occurs twice in `xs`.
pub open spec fn distinct(xs: Seq<u8>) -> bool {
    forall|i: int, j: int| 0 <= i < j < xs.len() ==> xs[i] != xs[j]
}

/// The product over `j < n`, `j != i`, of `(x + xs[j])`, multiplied in that order.
pub open spec fn bval(xs: Seq<u8>, i: int, x: u8, n: nat) -> u8
    decreases n,
{
    if n == 0 {
        1
    } else if n - 1 == i {
        bval(xs, i, x, (n - 1) as nat)
    } else {
        gf_mul(bval(xs, i, x, (n - 1) as nat), x ^ xs[n - 1])
    }
}

/// The coefficients of the polynomial whose values `bval` gives.
pub open spec fn basis(xs: Seq<u8>, i: int, n: nat) -> Seq<u8>
    decreases n,
{
    if n == 0 {
        seq![1u8]
    } else if n - 1 == i {
        basis(xs, i, (n - 1) as nat)
    } else {
        pmul_linear(basis(xs, i, (n - 1) as nat), xs[n - 1])
    }
}

/// The weight of the value `ys[i]` in the Lagrange polynomial through the points
/// `(xs[j], ys[j])`.
pub open spec fn lagrange_weight(xs: Seq<u8>, ys: Seq<u8>, i: int) -> u8 {
    gf_mul(ys[i], gf_inv(bval(xs, i, xs[i], xs.len())))
}

/// The sum over `i < n` of the Lagrange terms at `x`.
pub open spec fn lagrange_sum(xs: Seq<u8>, ys: Seq<u8>, x: u8, n: nat) -> u8
    decreases n,
{
    if n == 0 {
        0
    } else {
        lagrange_sum(xs, ys, x, (n - 1) as nat) ^ gf_mul(
            lagrange_weight(xs, ys, n - 1),
            bval(xs, n - 1, x, xs.len()),
        )
    }
}

/// The coefficients of the first `n` Lagrange terms.
pub open spec fn lagrange_poly(xs: Seq<u8>, ys: Seq<u8>, n: nat) -> Seq<u8>
    decreases n,
{
    if n == 0 {
        zeros(xs.len())
    } else {
        padd(
            lagrange_poly(xs, ys, (n - 1) as nat),
            pscale(basis(xs, n - 1, xs.len()), lagrange_weight(xs, ys, n - 1)),
        )
    }
}

pub proof fn lemma_peval_at_zero(c: Seq<u8>)
    ensures
        peval(c, 0) == (if c.len() == 0 {
            0u8
        } else {
            c[0]
        }),
{
    if c.len() > 0 {
        lemma_mul_zero_one(peval(c.drop_first(), 0));
        lemma_xor_facts(c[0], 0, 0);
    }
}

pub proof fn lemma_peval_zeros(n: nat, x: u8)
    ensures
        peval(zeros(n), x) == 0,
    decreases n,
{
    if n > 0 {
        assert(zeros(n).drop_first() =~= zeros((n - 1) as nat));
        lemma_peval_zeros((n - 1) as nat, x);
        lemma_mul_zero_one(x);
        lemma_xor_facts(0, 0, 0);
    }
}

/// Zero coefficients on top do not change a polynomial's values.
pub proof fn lemma_peval_pad(p: Seq<u8>, m: nat, x: u8)
    ensures
        peval(p + zeros(m), x) == peval(p, x),
    decreases p.len(),
{
    if p.len() == 0 {
        assert(p + zeros(m) =~= zeros(m));
        lemma_peval_zeros(m, x);
    } else {
        assert((p + zeros(m)).drop_first() =~= p.drop_first() + zeros(m));
        lemma_peval_pad(p.drop_first(), m, x);
    }
}

pub proof fn lemma_peval_add(a: Seq<u8>, b: Seq<u8>, x: u8)
    requires
        a.len() == b.len(),
    ensures
        peval(padd(a, b), x) == peval(a, x) ^ peval(b, x),
    decreases a.len(),
{
    if a.len() == 0 {
        lemma_xor_facts(0, 0, 0);
    } else {
        assert(padd(a, b).drop_first() =~= padd(a.drop_first(), b.drop_first()));
        lemma_peval_add(a.drop_first(), b.drop_first(), x);
        lemma_mul_distributive_left(peval(a.drop_first(), x), peval(b.drop_first(), x), x);
        lemma_xor_swap(
            gf_mul(peval(a.drop_first(), x), x),
            gf_mul(peval(b.drop_first(), x), x),
            a[0],
            b[0],
        );
    }
}

pub proof fn lemma_peval_scale(a: Seq<u8>, s: u8, x: u8)
    ensures
        peval(pscale(a, s), x) == gf_mul(s, peval(a, x)),
    decreases a.len(),
{
    if a.len() == 0 {
        lemma_mul_zero_one(s);
    } else {
        assert(pscale(a, s).drop_first() =~= pscale(a.drop_first(), s));
        lemma_peval_scale(a.drop_first(), s, x);
        lemma_mul_distributive(s, gf_mul(peval(a.drop_first(), x), x), a[0]);
        lemma_mul_associative(s, peval(a.drop_first(), x), x);
    }
}

pub proof fn lemma_peval_add_const(s: Seq<u8>, c: u8, x: u8)
    requires
        s.len() > 0,
    ensures
        peval(add_const(s, c), x) == peval(s, x) ^ c,
{
    assert(add_const(s, c).drop_first() =~= s.drop_first());
    lemma_xor_facts(gf_mul(peval(s.drop_first(), x), x), s[0], c);
}

pub proof fn lemma_pmul_linear(b: Seq<u8>, r: u8, x: u8)
    ensures
        pmul_linear(b, r).len() == b.len() + 1,
        peval(pmul_linear(b, r), x) == gf_mul(x ^ r, peval(b, x)),
    decreases b.len(),
{
    if b.len() == 0 {
        let z = seq![0u8];
        assert(pmul_linear(b, r) == z);
        assert(z.drop_first() =~= Seq::<u8>::empty());
        lemma_mul_zero_one(x);
        lemma_mul_zero_one(x ^ r);
        lemma_xor_facts(0, 0, 0);
        assert(peval(z, x) == gf_mul(peval(z.drop_first(), x), x) ^ z[0]);
    } else {
        let bt = b.drop_first();
        let b0 = b[0];
        let p = pmul_linear(bt, r);
        lemma_pmul_linear(bt, r, x);
        let whole = pmul_linear(b, r);
        assert(whole == seq![gf_mul(r, b0)] + add_const(p, b0));
        assert(whole.drop_first() =~= add_const(p, b0));
        assert(whole[0] == gf_mul(r, b0));
        lemma_peval_add_const(p, b0, x);
        let bv = peval(bt, x);
        assert(peval(whole, x) == gf_mul(gf_mul(x ^ r, bv) ^ b0, x) ^ gf_mul(r, b0));
        assert(peval(b, x) == gf_mul(bv, x) ^ b0);
        lemma_mul_distributive_left(gf_mul(x ^ r, bv), b0, x);
        lemma_mul_associative(x ^ r, bv, x);
        lemma_mul_commutative(b0, x);
        lemma_mul_distributive(x ^ r, gf_mul(bv, x), b0);
        lemma_mul_distributive_left(x, r, b0);
        lemma_xor_facts(gf_mul(x ^ r, gf_mul(bv, x)), gf_mul(x, b0), gf_mul(r, b0));
    }
}

/// Division by `(x + r)`: `c(x) = (x + r) * q(x) + c(r)`.
pub proof fn lemma_synth_div(c: Seq<u8>, r: u8, x: u8)
    requires
        c.len() > 0,
    ensures
        synth_div(c, r).len() == c.len() - 1,
        peval(c, x) == gf_mul(x ^ r, peval(synth_div(c, r), x)) ^ peval(c, r),
    decreases c.len(),
{
    let ct = c.drop_first();
    if c.len() == 1 {
        assert(ct =~= Seq::<u8>::empty());
        lemma_mul_zero_one(x);
        lemma_mul_zero_one(r);
        lemma_mul_zero_one(x ^ r);
        lemma_xor_facts(c[0], 0, 0);
        assert(synth_div(c, r) =~= Seq::<u8>::empty());
        assert(peval(ct, x) == 0);
        assert(peval(ct, r) == 0);
        assert(gf_mul(0, x) == 0);
        assert(peval(c, x) == gf_mul(peval(ct, x), x) ^ c[0]);
        assert(peval(c, x) == c[0]);
        assert(peval(c, r) == c[0]);
    } else {
        let qt = synth_div(ct, r);
        lemma_synth_div(ct, r, x);
        let q = synth_div(c, r);
        assert(q.drop_first() =~= qt);
        let cr = peval(ct, r);
        let qv = peval(qt, x);
        assert(q == seq![cr] + qt);
        assert(q[0] == cr);
        assert(peval(q, x) == gf_mul(qv, x) ^ cr);
        assert(peval(ct, x) == gf_mul(x ^ r, qv) ^ cr);
        assert(peval(c, x) == gf_mul(peval(ct, x), x) ^ c[0]);
        assert(peval(c, r) == gf_mul(cr, r) ^ c[0]);
        // c(x) = (((x + r) * qv) + cr) * x + c0
        lemma_mul_distributive_left(gf_mul(x ^ r, qv), cr, x);
        lemma_mul_associative(x ^ r, qv, x);
        // (x + r) * q(x) = (x + r) * (qv * x) + (x + r) * cr
        lemma_mul_distributive(x ^ r, gf_mul(qv, x), cr);
        lemma_mul_distributive_left(x, r, cr);
        lemma_mul_commutative(x, cr);
        lemma_mul_commutative(r, cr);
        let a = gf_mul(x ^ r, gf_mul(qv, x));
        let b = gf_mul(cr, x);
        let d = gf_mul(cr, r);
        let c0 = c[0];
        // (a + (b + d)) + (d + c0) == (a + b) + c0
        assert((a ^ (b ^ d)) ^ (d ^ c0) == (a ^ b) ^ c0) by (bit_vector);
    }
}

/// A polynomial with no more coefficients than it has distinct roots is zero everywhere.
pub proof fn lemma_roots(c: Seq<u8>, xs: Seq<u8>)
    requires
        c.len() <= xs.len(),
        distinct(xs),
        forall|m: int| 0 <= m < xs.len() ==> peval(c, #[trigger] xs[m]) == 0,
    ensures
        forall|x: u8| peval(c, x) == 0,
    decreases c.len(),
{
    if c.len() > 0 {
        let r = xs[0];
        let q = synth_div(c, r);
        let rest = xs.drop_first();
        assert forall|m: int| 0 <= m < rest.len() implies peval(q, #[trigger] rest[m]) == 0 by {
            lemma_synth_div(c, r, rest[m]);
            assert(xs[m + 1] == rest[m]);
            assert(peval(c, xs[m + 1]) == 0);
            assert(peval(c, xs[0]) == 0);
            lemma_xor_facts(gf_mul(rest[m] ^ r, peval(q, rest[m])), 0, 0);
            lemma_xor_facts(rest[m], r, 0);
            lemma_no_zero_divisors(rest[m] ^ r, peval(q, rest[m]));
        }
        lemma_synth_div(c, r, r);
        lemma_roots(q, rest);
        assert forall|x: u8| peval(c, x) == 0 by {
            lemma_synth_div(c, r, x);
            lemma_mul_zero_one(x ^ r);
            lemma_xor_facts(0, 0, 0);
        }
    }
}

pub proof fn lemma_basis(xs: Seq<u8>, i: int, n: nat, x: u8)
    requires
        n <= xs.len(),
    ensures
        peval(basis(xs, i, n), x) == bval(xs, i, x, n),
        basis(xs, i, n).len() == (if 0 <= i < n {
            n
        } else {
            n + 1
        }),
    decreases n,
{
    if n == 0 {
        let one = seq![1u8];
        assert(basis(xs, i, n) == one);
        assert(one.drop_first() =~= Seq::<u8>::empty());
        assert(peval(one, x) == gf_mul(peval(one.drop_first(), x), x) ^ one[0]);
        lemma_mul_zero_one(x);
        lemma_xor_facts(1, 0, 0);
    } else {
        lemma_basis(xs, i, (n - 1) as nat, x);
        if n - 1 != i {
            lemma_pmul_linear(basis(xs, i, (n - 1) as nat), xs[n - 1], x);
            lemma_mul_commutative(x ^ xs[n - 1], bval(xs, i, x, (n - 1) as nat));
        }
    }
}

/// The product vanishes at every `xs[m]` that is one of its factors.
pub proof fn lemma_bval_root(xs: Seq<u8>, i: int, m: int, n: nat)
    requires
        n <= xs.len(),
        0 <= m < n,
        m != i,
    ensures
        bval(xs, i, xs[m], n) == 0,
    decreases n,
{
    if n - 1 == m {
        lemma_xor_facts(xs[m], 0, 0);
        lemma_mul_zero_one(bval(xs, i, xs[m], (n - 1) as nat));
    } else {
        lemma_bval_root(xs, i, m, (n - 1) as nat);
        lemma_mul_zero_one(xs[m] ^ xs[n - 1]);
    }
}

/// At its own point, the product has only nonzero factors.
pub proof fn lemma_bval_nonzero(xs: Seq<u8>, i: int, n: nat)
    requires
        n <= xs.len(),
        0 <= i < xs.len(),
        distinct(xs),
    ensures
        bval(xs, i, xs[i], n) != 0,
    decreases n,
{
    if n > 0 {
        lemma_bval_nonzero(xs, i, (n - 1) as nat);
        if n - 1 != i {
            lemma_xor_facts(xs[i], xs[n - 1], 0);
            lemma_no_zero_divisors(bval(xs, i, xs[i], (n - 1) as nat), xs[i] ^ xs[n - 1]);
        }
    }
}

pub proof fn lemma_lagrange_poly(xs: Seq<u8>, ys: Seq<u8>, n: nat, x: u8)
    requires
        n <= xs.len(),
    ensures
        lagrange_poly(xs, ys, n).len() == xs.len(),
        peval(lagrange_poly(xs, ys, n), x) == lagrange_sum(xs, ys, x, n),
    decreases n,
{
    if n == 0 {
        lemma_peval_zeros(xs.len(), x);
    } else {
        let prev = lagrange_poly(xs, ys, (n - 1) as nat);
        lemma_lagrange_poly(xs, ys, (n - 1) as nat, x);
        let b = basis(xs, n - 1, xs.len());
        lemma_basis(xs, n - 1, xs.len(), x);
        let w = lagrange_weight(xs, ys, n - 1);
        lemma_peval_scale(b, w, x);
        lemma_peval_add(prev, pscale(b, w), x);
    }
}

/// At a node `xs[m]`, the first `n` Lagrange terms sum to `ys[m]` if `m < n`, else to zero.
pub proof fn lemma_lagrange_sum_at_node(xs: Seq<u8>, ys: Seq<u8>, m: int, n: nat)
    requires
        xs.len() == ys.len(),
        distinct(xs),
        0 <= m < xs.len(),
        n <= xs.len(),
    ensures
        lagrange_sum(xs, ys, xs[m], n) == (if m < n {
            ys[m]
        } else {
            0u8
        }),
    decreases n,
{
    if n > 0 {
        lemma_lagrange_sum_at_node(xs, ys, m, (n - 1) as nat);
        let i = n - 1;
        let w = lagrange_weight(xs, ys, i);
        let prev = lagrange_sum(xs, ys, xs[m], (n - 1) as nat);
        if i != m {
            lemma_bval_root(xs, i, m, xs.len());
            lemma_mul_zero_one(w);
            lemma_xor_facts(prev, 0, 0);
        } else {
            let d = bval(xs, i, xs[i], xs.len());
            lemma_bval_nonzero(xs, i, xs.len());
            lemma_gf_inv(d, 0);
            lemma_mul_associative(ys[i], gf_inv(d), d);
            lemma_mul_zero_one(ys[i]);
            lemma_xor_facts(ys[i], 0, 0);
        }
    }
}

/// Lagrange interpolation at zero recovers the constant term of any polynomial with
/// no more coefficients than there are distinct nodes.
pub proof fn lemma_interpolation_at_zero(p: Seq<u8>, xs: Seq<u8>, ys: Seq<u8>)
    requires
        xs.len() == ys.len(),
        p.len() <= xs.len(),
        distinct(xs),
        forall|m: int| 0 <= m < xs.len() ==> #[trigger] ys[m] == peval(p, xs[m]),
    ensures
        lagrange_sum(xs, ys, 0, xs.len()) == peval(p, 0),
{
    let k = xs.len();
    let pp = p + zeros((k - p.len()) as nat);
    let l = lagrange_poly(xs, ys, k);
    lemma_lagrange_poly(xs, ys, k, 0);
    let d = padd(pp, l);
    assert forall|m: int| 0 <= m < k implies peval(d, #[trigger] xs[m]) == 0 by {
        lemma_lagrange_poly(xs, ys, k, xs[m]);
        lemma_peval_pad(p, (k - p.len()) as nat, xs[m]);
        lemma_peval_add(pp, l, xs[m]);
        lemma_lagrange_sum_at_node(xs, ys, m, k);
        lemma_xor_facts(ys[m], ys[m], 0);
    }
    lemma_roots(d, xs);
    assert(peval(d, 0) == 0);
    lemma_peval_pad(p, (k - p.len()) as nat, 0);
    lemma_peval_add(pp, l, 0);
    lemma_xor_facts(peval(p, 0), lagrange_sum(xs, ys, 0, k), 0);
}


/// The value at `x` of the polynomial with coefficients `coeffs` (constant term first).
pub fn gf256_poly_eval(coeffs: &[u8], x: u8) -> (r: u8)
    ensures
        r == peval(coeffs@, x),
{
    let mut result: u8 = 0;
    let mut i: usize = coeffs.len();
    assert(coeffs@.subrange(i as int, coeffs@.len() as int) =~= Seq::<u8>::empty());
    while i > 0
        invariant
            i <= coeffs@.len(),
            result == peval(coeffs@.subrange(i as int, coeffs@.len() as int), x),
        decreases i,
    {
        i -= 1;
        assert(coeffs@.subrange(i as int, coeffs@.len() as int).drop_first() =~= coeffs@.subrange(
            i + 1,
            coeffs@.len() as int,
        ));
        result = gf256_mul(result, x) ^ coeffs[i];
    }
    assert(coeffs@.subrange(0, coeffs@.len() as int) =~= coeffs@);
    result
}

} // verus!

//! Lagrange interpolation at zero, over the integers modulo `m`.
//!
//! The weights are written as plain integer products, so that sums and
//! products obey ordinary algebra; only where an inverse is cancelled does a
//! statement hold modulo `m` rather than exactly. Nothing here asks `m` to be
//! prime: it is enough that the differences of the nodes have inverses.

use vstd::prelude::*;
use vstd::arithmetic::div_mod::*;

verus! {

/// `a` and `b` leave the same remainder modulo `m`.
pub open spec fn congruent(a: int, b: int, m: int) -> bool {
    a % m == b % m
}

/// `v` is the inverse of `d` modulo `m`, as a residue in `[0, m)`.
pub open spec fn is_inverse(v: int, d: int, m: int) -> bool {
    0 <= v < m && (v * d) % m == 1
}

/// `d` has an inverse modulo `m`.
pub open spec fn has_inverse(d: int, m: int) -> bool {
    exists|v: int| is_inverse(v, d, m)
}

/// The inverse of `d` modulo `m`, where it has one.
pub open spec fn inverse(d: int, m: int) -> int {
    choose|v: int| is_inverse(v, d, m)
}

/// Every two different nodes differ by something invertible.
pub open spec fn nodes_invertible(xs: Seq<int>, m: int) -> bool {
    forall|i: int, j: int|
        0 <= i < xs.len() && 0 <= j < xs.len() && i != j ==> #[trigger] has_inverse(
            xs[j] - xs[i],
            m,
        )
}

/// The product, over the nodes `j < n` other than `i`, of
/// `x_j / (x_j - x_i)`.
pub open spec fn weight_prefix(xs: Seq<int>, i: int, n: nat, m: int) -> int
    decreases n,
{
    if n == 0 {
        1
    } else if n - 1 == i {
        weight_prefix(xs, i, (n - 1) as nat, m)
    } else {
        weight_prefix(xs, i, (n - 1) as nat, m) * (xs[n - 1] * inverse(xs[n - 1] - xs[i], m))
    }
}

/// The Lagrange coefficient of node `i` for evaluation at zero.
pub open spec fn weight(xs: Seq<int>, i: int, m: int) -> int {
    weight_prefix(xs, i, xs.len(), m)
}

/// The sum of the numbers in `s`.
pub open spec fn sum(s: Seq<int>) -> int
    decreases s.len(),
{
    if s.len() == 0 {
        0
    } else {
        sum(s.drop_last()) + s.last()
    }
}

/// The value at zero of the interpolant through `(xs[i], ys[i])`.
pub open spec fn interpolate(xs: Seq<int>, ys: Seq<int>, m: int) -> int {
    sum(Seq::new(xs.len(), |i: int| weight(xs, i, m) * ys[i]))
}

/// `x` to the power `k`.
pub open spec fn power(x: int, k: nat) -> int
    decreases k,
{
    if k == 0 {
        1
    } else {
        x * power(x, (k - 1) as nat)
    }
}

/// The value at `x` of the polynomial with the first `n` of the
/// coefficients `coeffs`, lowest degree first.
pub open spec fn poly_prefix(coeffs: Seq<int>, x: int, n: nat) -> int
    decreases n,
{
    if n == 0 {
        0
    } else {
        poly_prefix(coeffs, x, (n - 1) as nat) + coeffs[n - 1] * power(x, (n - 1) as nat)
    }
}

/// The value at `x` of the polynomial with the coefficients `coeffs`,
/// lowest degree first.
pub open spec fn poly_eval(coeffs: Seq<int>, x: int) -> int {
    poly_prefix(coeffs, x, coeffs.len())
}

// ---------------------------------------------------------------------------
// Congruences
// ---------------------------------------------------------------------------

/// Congruences may be added and subtracted.
pub proof fn lemma_congruent_add(a: int, b: int, c: int, d: int, m: int)
    requires
        m > 0,
        congruent(a, b, m),
        congruent(c, d, m),
    ensures
        congruent(a + c, b + d, m),
        congruent(a - c, b - d, m),
{
    lemma_add_mod_noop(a, c, m);
    lemma_add_mod_noop(b, d, m);
    lemma_sub_mod_noop(a, c, m);
    lemma_sub_mod_noop(b, d, m);
}

/// A congruence may be multiplied by any number.
pub proof fn lemma_congruent_mul(a: int, b: int, k: int, m: int)
    requires
        m > 0,
        congruent(a, b, m),
    ensures
        congruent(k * a, k * b, m),
        congruent(a * k, b * k, m),
{
    lemma_mul_mod_noop_right(k, a, m);
    lemma_mul_mod_noop_right(k, b, m);
    lemma_mul_mod_noop_left(a, k, m);
    lemma_mul_mod_noop_left(b, k, m);
}

/// Multiplying by something congruent to one changes nothing.
pub proof fn lemma_cancel_unit(k: int, u: int, m: int)
    requires
        m > 1,
        u % m == 1,
    ensures
        congruent(k * u, k, m),
{
    lemma_mul_mod_noop_right(k, u, m);
    assert(k * 1 == k);
}

/// An inverse modulo `m` is unique.
pub proof fn lemma_inverse_unique(v: int, w: int, d: int, m: int)
    requires
        m > 1,
        is_inverse(v, d, m),
        is_inverse(w, d, m),
    ensures
        v == w,
{
    lemma_cancel_unit(v, w * d, m);
    lemma_cancel_unit(w, v * d, m);
    assert(v * (w * d) == w * (v * d)) by (nonlinear_arith);
    lemma_small_mod(v as nat, m as nat);
    lemma_small_mod(w as nat, m as nat);
}

/// Where `d` has an inverse, `inverse` names it.
pub proof fn lemma_inverse_is_inverse(d: int, m: int)
    requires
        has_inverse(d, m),
    ensures
        is_inverse(inverse(d, m), d, m),
{
}

/// What is inverse to `d % m` is inverse to `d`.
pub proof fn lemma_inverse_of_residue(v: int, d: int, m: int)
    requires
        m > 1,
        is_inverse(v, d % m, m),
    ensures
        is_inverse(v, d, m),
        inverse(d, m) == v,
{
    lemma_mul_mod_noop_right(v, d, m);
    assert(is_inverse(v, d, m));
    lemma_inverse_is_inverse(d, m);
    lemma_inverse_unique(v, inverse(d, m), d, m);
}

// ---------------------------------------------------------------------------
// Sums
// ---------------------------------------------------------------------------

/// Sums of numbers that are congruent one by one are congruent.
pub proof fn lemma_sum_congruent(s: Seq<int>, t: Seq<int>, m: int)
    requires
        m > 0,
        s.len() == t.len(),
        forall|i: int| 0 <= i < s.len() ==> congruent(#[trigger] s[i], t[i], m),
    ensures
        congruent(sum(s), sum(t), m),
    decreases s.len(),
{
    if s.len() > 0 {
        lemma_sum_congruent(s.drop_last(), t.drop_last(), m);
        lemma_congruent_add(sum(s.drop_last()), sum(t.drop_last()), s.last(), t.last(), m);
    }
}

/// A factor common to all summands may be taken out of the sum.
pub proof fn lemma_sum_scale(s: Seq<int>, c: int)
    ensures
        sum(Seq::new(s.len(), |i: int| c * s[i])) == c * sum(s),
    decreases s.len(),
{
    let t = Seq::new(s.len(), |i: int| c * s[i]);
    if s.len() > 0 {
        lemma_sum_scale(s.drop_last(), c);
        assert(t.drop_last() =~= Seq::new(s.drop_last().len(), |i: int| c * s.drop_last()[i]));
        assert(c * (sum(s.drop_last()) + s.last()) == c * sum(s.drop_last()) + c * s.last())
            by (nonlinear_arith);
    } else {
        assert(c * 0 == 0);
    }
}

/// A sum of sums or differences is the sum or difference of the sums.
pub proof fn lemma_sum_add(s: Seq<int>, t: Seq<int>)
    requires
        s.len() == t.len(),
    ensures
        sum(Seq::new(s.len(), |i: int| s[i] + t[i])) == sum(s) + sum(t),
        sum(Seq::new(s.len(), |i: int| s[i] - t[i])) == sum(s) - sum(t),
    decreases s.len(),
{
    let u = Seq::new(s.len(), |i: int| s[i] + t[i]);
    let v = Seq::new(s.len(), |i: int| s[i] - t[i]);
    if s.len() > 0 {
        lemma_sum_add(s.drop_last(), t.drop_last());
        assert(u.drop_last() =~= Seq::new(
            s.drop_last().len(),
            |i: int| s.drop_last()[i] + t.drop_last()[i],
        ));
        assert(v.drop_last() =~= Seq::new(
            s.drop_last().len(),
            |i: int| s.drop_last()[i] - t.drop_last()[i],
        ));
    }
}

/// A sum is its first summand and the sum of the rest.
pub proof fn lemma_sum_first(s: Seq<int>)
    requires
        s.len() > 0,
    ensures
        sum(s) == s[0] + sum(s.drop_first()),
    decreases s.len(),
{
    if s.len() == 1 {
        assert(s.drop_last() =~= s.drop_first());
        assert(sum(s.drop_first()) == 0);
    } else {
        lemma_sum_first(s.drop_last());
        assert(s.drop_last().drop_first() =~= s.drop_first().drop_last());
    }
}

// ---------------------------------------------------------------------------
// Weights
// ---------------------------------------------------------------------------

/// A weight over the first `n` nodes looks at no node beyond them.
pub proof fn lemma_weight_prefix_take(xs: Seq<int>, i: int, n: nat, k: nat, m: int)
    requires
        n <= k <= xs.len(),
        0 <= i < k,
    ensures
        weight_prefix(xs.take(k as int), i, n, m) == weight_prefix(xs, i, n, m),
    decreases n,
{
    if n > 0 {
        lemma_weight_prefix_take(xs, i, (n - 1) as nat, k, m);
    }
}

/// Splitting off the first node's factor.
pub proof fn lemma_weight_prefix_first(xs: Seq<int>, i: int, n: nat, m: int)
    requires
        1 <= n <= xs.len(),
        1 <= i < xs.len(),
    ensures
        weight_prefix(xs, i, n, m) == (xs[0] * inverse(xs[0] - xs[i], m)) * weight_prefix(
            xs.drop_first(),
            i - 1,
            (n - 1) as nat,
            m,
        ),
    decreases n,
{
    let f = xs[0] * inverse(xs[0] - xs[i], m);
    let rest = xs.drop_first();
    if n == 1 {
        assert(weight_prefix(xs, i, 0, m) == 1);
        assert(weight_prefix(rest, i - 1, 0, m) == 1);
        assert(weight_prefix(xs, i, 1, m) == 1 * f);
    } else {
        lemma_weight_prefix_first(xs, i, (n - 1) as nat, m);
        let w = weight_prefix(rest, i - 1, (n - 2) as nat, m);
        assert(weight_prefix(xs, i, (n - 1) as nat, m) == f * w);
        if n - 1 == i {
        } else {
            let g = xs[n - 1] * inverse(xs[n - 1] - xs[i], m);
            assert(rest[n - 2] == xs[n - 1]);
            assert(rest[i - 1] == xs[i]);
            assert(weight_prefix(rest, i - 1, (n - 1) as nat, m) == w * g);
            assert((f * w) * g == f * (w * g)) by (nonlinear_arith);
        }
    }
}

/// The sum of `w_i (c - x_i) y_i` taken apart.
pub proof fn lemma_interpolate_shifted(xs: Seq<int>, ys: Seq<int>, c: int, m: int)
    requires
        xs.len() == ys.len(),
    ensures
        sum(Seq::new(xs.len(), |i: int| weight(xs, i, m) * (c - xs[i]) * ys[i])) == c
            * interpolate(xs, ys, m) - interpolate(
            xs,
            Seq::new(xs.len(), |i: int| xs[i] * ys[i]),
            m,
        ),
{
    let n = xs.len();
    let xy = Seq::new(n, |i: int| xs[i] * ys[i]);
    let a = Seq::new(n, |i: int| weight(xs, i, m) * ys[i]);
    let b = Seq::new(n, |i: int| weight(xs, i, m) * xy[i]);
    let ca = Seq::new(n, |i: int| c * a[i]);
    let lhs = Seq::new(n, |i: int| weight(xs, i, m) * (c - xs[i]) * ys[i]);
    lemma_sum_scale(a, c);
    lemma_sum_add(ca, b);
    assert forall|i: int| 0 <= i < n implies lhs[i] == ca[i] - b[i] by {
        let w = weight(xs, i, m);
        let x = xs[i];
        let y = ys[i];
        assert(w * (c - x) * y == c * (w * y) - w * (x * y)) by (nonlinear_arith);
    }
    assert(lhs =~= Seq::new(n, |i: int| ca[i] - b[i]));
}

/// Dropping the last node `b`: `b I(y) - I(x y)` over all nodes is `b I(y)`
/// over the others.
pub proof fn lemma_drop_last_node(xs: Seq<int>, ys: Seq<int>, m: int)
    requires
        m > 1,
        xs.len() == ys.len(),
        xs.len() >= 1,
        nodes_invertible(xs, m),
    ensures
        congruent(
            xs.last() * interpolate(xs, ys, m) - interpolate(
                xs,
                Seq::new(xs.len(), |i: int| xs[i] * ys[i]),
                m,
            ),
            xs.last() * interpolate(xs.drop_last(), ys.drop_last(), m),
            m,
        ),
{
    let n = xs.len();
    let b = xs.last();
    let t = xs.drop_last();
    let lhs = Seq::new(n, |i: int| weight(xs, i, m) * (b - xs[i]) * ys[i]);
    let inner = Seq::new(t.len(), |i: int| weight(t, i, m) * ys.drop_last()[i]);
    let rhs = Seq::new(t.len(), |i: int| b * inner[i]);
    lemma_interpolate_shifted(xs, ys, b, m);
    lemma_sum_scale(inner, b);
    assert(lhs.last() == 0) by {
        assert(weight(xs, n - 1, m) * (b - xs[n - 1]) * ys[n - 1] == 0) by (nonlinear_arith)
            requires
                b - xs[n - 1] == 0,
        ;
    }
    assert forall|i: int| 0 <= i < t.len() implies congruent(
        #[trigger] lhs.drop_last()[i],
        rhs[i],
        m,
    ) by {
        let d = b - xs[i];
        let v = inverse(d, m);
        let w = weight_prefix(xs, i, (n - 1) as nat, m);
        assert(has_inverse(xs[n - 1] - xs[i], m));
        lemma_inverse_is_inverse(d, m);
        lemma_weight_prefix_take(xs, i, (n - 1) as nat, (n - 1) as nat, m);
        assert(xs.take(n - 1) =~= t);
        assert(weight(t, i, m) == w);
        assert(weight(xs, i, m) == w * (b * v));
        let y = ys[i];
        let k = b * (w * y);
        assert((w * (b * v)) * d * y == (b * (w * y)) * (v * d)) by (nonlinear_arith);
        lemma_cancel_unit(k, v * d, m);
    }
    lemma_sum_congruent(lhs.drop_last(), rhs, m);
}

/// Dropping the first node `a`, in the same way.
pub proof fn lemma_drop_first_node(xs: Seq<int>, ys: Seq<int>, m: int)
    requires
        m > 1,
        xs.len() == ys.len(),
        xs.len() >= 1,
        nodes_invertible(xs, m),
    ensures
        congruent(
            xs[0] * interpolate(xs, ys, m) - interpolate(
                xs,
                Seq::new(xs.len(), |i: int| xs[i] * ys[i]),
                m,
            ),
            xs[0] * interpolate(xs.drop_first(), ys.drop_first(), m),
            m,
        ),
{
    let n = xs.len();
    let a = xs[0];
    let u = xs.drop_first();
    let lhs = Seq::new(n, |i: int| weight(xs, i, m) * (a - xs[i]) * ys[i]);
    let inner = Seq::new(u.len(), |i: int| weight(u, i, m) * ys.drop_first()[i]);
    let rhs = Seq::new(u.len(), |i: int| a * inner[i]);
    lemma_interpolate_shifted(xs, ys, a, m);
    lemma_sum_scale(inner, a);
    lemma_sum_first(lhs);
    assert(lhs[0] == 0) by {
        assert(weight(xs, 0, m) * (a - xs[0]) * ys[0] == 0) by (nonlinear_arith)
            requires
                a - xs[0] == 0,
        ;
    }
    assert forall|i: int| 0 <= i < u.len() implies congruent(
        #[trigger] lhs.drop_first()[i],
        rhs[i],
        m,
    ) by {
        let d = a - xs[i + 1];
        let v = inverse(d, m);
        let w = weight(u, i, m);
        assert(has_inverse(xs[0] - xs[i + 1], m));
        lemma_inverse_is_inverse(d, m);
        lemma_weight_prefix_first(xs, i + 1, n, m);
        assert(weight(xs, i + 1, m) == (a * v) * w);
        let y = ys[i + 1];
        let k = a * (w * y);
        assert(((a * v) * w) * d * y == (a * (w * y)) * (v * d)) by (nonlinear_arith);
        lemma_cancel_unit(k, v * d, m);
    }
    lemma_sum_congruent(lhs.drop_first(), rhs, m);
}

// ---------------------------------------------------------------------------
// Interpolating monomials and polynomials
// ---------------------------------------------------------------------------

/// The `k`-th powers of the nodes.
pub open spec fn powers(xs: Seq<int>, k: nat) -> Seq<int> {
    Seq::new(xs.len(), |i: int| power(xs[i], k))
}

/// The values at the nodes of the polynomial with the first `n` of the
/// coefficients.
pub open spec fn evaluations(xs: Seq<int>, coeffs: Seq<int>, n: nat) -> Seq<int> {
    Seq::new(xs.len(), |i: int| poly_prefix(coeffs, xs[i], n))
}

/// Nodes stay invertible when the first or the last is left out.
pub proof fn lemma_nodes_invertible_sub(xs: Seq<int>, m: int)
    requires
        nodes_invertible(xs, m),
        xs.len() >= 1,
    ensures
        nodes_invertible(xs.drop_last(), m),
        nodes_invertible(xs.drop_first(), m),
{
    let t = xs.drop_last();
    let u = xs.drop_first();
    assert forall|i: int, j: int| 0 <= i < t.len() && 0 <= j < t.len() && i != j implies
        #[trigger] has_inverse(t[j] - t[i], m) by {
        assert(has_inverse(xs[j] - xs[i], m));
    }
    assert forall|i: int, j: int| 0 <= i < u.len() && 0 <= j < u.len() && i != j implies
        #[trigger] has_inverse(u[j] - u[i], m) by {
        assert(has_inverse(xs[j + 1] - xs[i + 1], m));
    }
}

/// The weights add up to one: a constant is interpolated by itself.
pub proof fn lemma_interpolate_one(xs: Seq<int>, m: int)
    requires
        m > 1,
        xs.len() >= 1,
        nodes_invertible(xs, m),
    ensures
        congruent(interpolate(xs, powers(xs, 0), m), 1, m),
    decreases xs.len(),
{
    let n = xs.len();
    let ones = powers(xs, 0);
    let terms = Seq::new(n, |i: int| weight(xs, i, m) * ones[i]);
    if n == 1 {
        assert(weight_prefix(xs, 0, 0, m) == 1);
        assert(weight(xs, 0, m) == 1);
        assert(terms.drop_last().len() == 0);
        assert(sum(terms) == sum(terms.drop_last()) + terms.last());
        assert(sum(terms.drop_last()) == 0);
        assert(terms.last() == 1);
    } else {
        let a = xs[0];
        let b = xs.last();
        let whole = interpolate(xs, ones, m);
        let mixed = interpolate(xs, Seq::new(n, |i: int| xs[i] * ones[i]), m);
        lemma_nodes_invertible_sub(xs, m);
        lemma_drop_last_node(xs, ones, m);
        lemma_drop_first_node(xs, ones, m);
        assert(ones.drop_last() =~= powers(xs.drop_last(), 0));
        assert(ones.drop_first() =~= powers(xs.drop_first(), 0));
        lemma_interpolate_one(xs.drop_last(), m);
        lemma_interpolate_one(xs.drop_first(), m);
        let without_b = interpolate(xs.drop_last(), ones.drop_last(), m);
        let without_a = interpolate(xs.drop_first(), ones.drop_first(), m);
        // b * whole - mixed ~ b and a * whole - mixed ~ a
        lemma_congruent_mul(without_b, 1, b, m);
        lemma_congruent_mul(without_a, 1, a, m);
        assert(b * 1 == b && a * 1 == a);
        lemma_congruent_add(b * whole - mixed, b, a * whole - mixed, a, m);
        assert((b * whole - mixed) - (a * whole - mixed) == (b - a) * whole) by (nonlinear_arith);
        assert(congruent((b - a) * whole, b - a, m));
        // cancel b - a
        let d = b - a;
        let v = inverse(d, m);
        assert(has_inverse(xs[n - 1] - xs[0], m));
        lemma_inverse_is_inverse(d, m);
        lemma_congruent_mul(d * whole, d, v, m);
        assert(v * (d * whole) == whole * (v * d)) by (nonlinear_arith);
        lemma_cancel_unit(whole, v * d, m);
        lemma_small_mod(1, m as nat);
    }
}

/// A monomial of positive degree below the number of nodes is interpolated
/// to zero.
pub proof fn lemma_interpolate_monomial(xs: Seq<int>, k: nat, m: int)
    requires
        m > 1,
        1 <= k < xs.len(),
        nodes_invertible(xs, m),
    ensures
        congruent(interpolate(xs, powers(xs, k), m), 0, m),
    decreases k,
{
    let n = xs.len();
    let b = xs.last();
    let lower = powers(xs, (k - 1) as nat);
    let whole = interpolate(xs, lower, m);
    let rest = interpolate(xs.drop_last(), lower.drop_last(), m);
    lemma_nodes_invertible_sub(xs, m);
    lemma_drop_last_node(xs, lower, m);
    assert(Seq::new(n, |i: int| xs[i] * lower[i]) =~= powers(xs, k));
    assert(lower.drop_last() =~= powers(xs.drop_last(), (k - 1) as nat));
    let target = interpolate(xs, powers(xs, k), m);
    // b * whole - target ~ b * rest
    if k == 1 {
        lemma_interpolate_one(xs, m);
        lemma_interpolate_one(xs.drop_last(), m);
    } else {
        lemma_interpolate_monomial(xs, (k - 1) as nat, m);
        lemma_interpolate_monomial(xs.drop_last(), (k - 1) as nat, m);
    }
    assert(congruent(whole, rest, m));
    lemma_congruent_mul(whole, rest, b, m);
    lemma_congruent_add(b * whole, b * rest, b * whole - target, b * rest, m);
    assert(b * whole - (b * whole - target) == target);
    assert(b * rest - b * rest == 0);
}

/// Interpolation through the values of a polynomial with no more
/// coefficients than there are nodes gives back its constant term.
pub proof fn lemma_interpolate_polynomial(xs: Seq<int>, coeffs: Seq<int>, n: nat, m: int)
    requires
        m > 1,
        xs.len() >= 1,
        n <= coeffs.len(),
        n <= xs.len(),
        nodes_invertible(xs, m),
    ensures
        congruent(
            interpolate(xs, evaluations(xs, coeffs, n), m),
            if n == 0 {
                0
            } else {
                coeffs[0]
            },
            m,
        ),
    decreases n,
{
    let len = xs.len();
    let values = evaluations(xs, coeffs, n);
    let terms = Seq::new(len, |i: int| weight(xs, i, m) * values[i]);
    if n == 0 {
        let zeros = Seq::new(len, |i: int| 0int);
        lemma_sum_scale(zeros, 0);
        assert forall|i: int| 0 <= i < len implies terms[i] == 0 * zeros[i] by {
            assert(weight(xs, i, m) * 0 == 0);
        }
        assert(terms =~= Seq::new(len, |i: int| 0 * zeros[i]));
        assert(0 * sum(zeros) == 0);
    } else {
        let k = (n - 1) as nat;
        let c = coeffs[n - 1];
        let lower = evaluations(xs, coeffs, k);
        let lower_terms = Seq::new(len, |i: int| weight(xs, i, m) * lower[i]);
        let mono_terms = Seq::new(len, |i: int| weight(xs, i, m) * powers(xs, k)[i]);
        let scaled = Seq::new(len, |i: int| c * mono_terms[i]);
        lemma_interpolate_polynomial(xs, coeffs, k, m);
        lemma_sum_scale(mono_terms, c);
        lemma_sum_add(lower_terms, scaled);
        assert forall|i: int| 0 <= i < len implies terms[i] == lower_terms[i] + scaled[i] by {
            let w = weight(xs, i, m);
            let p = power(xs[i], k);
            let l = lower[i];
            assert(values[i] == l + c * p);
            assert(w * (l + c * p) == w * l + c * (w * p)) by (nonlinear_arith);
        }
        assert(terms =~= Seq::new(len, |i: int| lower_terms[i] + scaled[i]));
        let mono = interpolate(xs, powers(xs, k), m);
        assert(sum(terms) == sum(lower_terms) + c * mono);
        if k == 0 {
            lemma_interpolate_one(xs, m);
            lemma_congruent_mul(mono, 1, c, m);
            assert(c * 1 == c);
            lemma_congruent_add(sum(lower_terms), 0, c * mono, c, m);
        } else {
            lemma_interpolate_monomial(xs, k, m);
            lemma_congruent_mul(mono, 0, c, m);
            assert(c * 0 == 0);
            lemma_congruent_add(sum(lower_terms), coeffs[0], c * mono, 0, m);
        }
    }
}

/// Interpolating the values `f(x_i) * h` of a polynomial gives back
/// `f(0) * h`, whatever stands for the values modulo `m`.
pub proof fn lemma_combination_recovers(
    xs: Seq<int>,
    logs: Seq<int>,
    coeffs: Seq<int>,
    h: int,
    m: int,
)
    requires
        m > 1,
        xs.len() >= 1,
        logs.len() == xs.len(),
        1 <= coeffs.len() <= xs.len(),
        nodes_invertible(xs, m),
        forall|i: int|
            0 <= i < xs.len() ==> congruent(#[trigger] logs[i], poly_eval(coeffs, xs[i]) * h, m),
    ensures
        congruent(interpolate(xs, logs, m), coeffs[0] * h, m),
{
    let n = xs.len();
    let values = evaluations(xs, coeffs, coeffs.len());
    let terms = Seq::new(n, |i: int| weight(xs, i, m) * logs[i]);
    let inner = Seq::new(n, |i: int| weight(xs, i, m) * values[i]);
    let scaled = Seq::new(n, |i: int| h * inner[i]);
    assert forall|i: int| 0 <= i < n implies congruent(#[trigger] terms[i], scaled[i], m) by {
        let w = weight(xs, i, m);
        let f = poly_eval(coeffs, xs[i]);
        lemma_congruent_mul(logs[i], f * h, w, m);
        assert(w * (f * h) == h * (w * f)) by (nonlinear_arith);
    }
    lemma_sum_congruent(terms, scaled, m);
    lemma_sum_scale(inner, h);
    lemma_interpolate_polynomial(xs, coeffs, coeffs.len(), m);
    lemma_congruent_mul(interpolate(xs, values, m), coeffs[0], h, m);
    assert(h * coeffs[0] == coeffs[0] * h) by (nonlinear_arith);
}

} // verus!

//! Quotients of quadratics that rise from zero to a height, in real numbers.
//!
//! Between two edges a spline rises by `h`, on average by `s` for each step to the right, with the
//! slopes `a` at the left edge and `b` at the right edge. `t` is the fraction of the way from edge
//! to edge.

use vstd::prelude::*;

verus! {

/// The product of two numbers.
#[verifier::opaque]
pub open spec fn product(x: real, y: real) -> real {
    x * y
}

/// The part of the denominator that grows with the way gone.
pub open spec fn gone(s: real, a: real, t: real) -> real {
    product(s, product(t, t)) + product(a, product(t, 1real - t))
}

/// The denominator.
pub open spec fn denominator(s: real, a: real, b: real, t: real) -> real {
    s + product(a + b - 2real * s, product(t, 1real - t))
}

/// The height at a fraction of the way.
pub open spec fn rise(h: real, s: real, a: real, b: real, t: real) -> real {
    product(h, gone(s, a, t)) / denominator(s, a, b, t)
}

/// The coefficients of the quadratic whose root is the fraction at which the height is `y`.
pub open spec fn first(h: real, s: real, a: real, b: real, y: real) -> real {
    product(y, a + b - 2real * s) + product(h, s - a)
}

pub open spec fn second(h: real, s: real, a: real, b: real, y: real) -> real {
    product(h, a) - product(y, a + b - 2real * s)
}

pub open spec fn third(s: real, y: real) -> real {
    -product(s, y)
}

pub open spec fn discriminant(h: real, s: real, a: real, b: real, y: real) -> real {
    product(second(h, s, a, b, y), second(h, s, a, b, y)) - 4real * product(
        first(h, s, a, b, y),
        third(s, y),
    )
}

// Rules of products.

broadcast proof fn lemma_sum_right(x: real, y: real, z: real)
    ensures
        #[trigger] product(x, y + z) == product(x, y) + product(x, z),
{
    reveal(product);
    assert(x * (y + z) == x * y + x * z) by (nonlinear_arith);
}

broadcast proof fn lemma_difference_right(x: real, y: real, z: real)
    ensures
        #[trigger] product(x, y - z) == product(x, y) - product(x, z),
{
    reveal(product);
    assert(x * (y - z) == x * y - x * z) by (nonlinear_arith);
}

broadcast proof fn lemma_sum_left(x: real, y: real, z: real)
    ensures
        #[trigger] product(x + y, z) == product(x, z) + product(y, z),
{
    reveal(product);
    assert((x + y) * z == x * z + y * z) by (nonlinear_arith);
}

broadcast proof fn lemma_difference_left(x: real, y: real, z: real)
    ensures
        #[trigger] product(x - y, z) == product(x, z) - product(y, z),
{
    reveal(product);
    assert((x - y) * z == x * z - y * z) by (nonlinear_arith);
}

broadcast proof fn lemma_double_right(x: real, y: real)
    ensures
        #[trigger] product(x, 2real * y) == 2real * product(x, y),
{
    reveal(product);
    assert(x * (2real * y) == 2real * (x * y)) by (nonlinear_arith);
}

broadcast proof fn lemma_double_left(x: real, y: real)
    ensures
        #[trigger] product(2real * x, y) == 2real * product(x, y),
{
    reveal(product);
    assert((2real * x) * y == 2real * (x * y)) by (nonlinear_arith);
}

broadcast proof fn lemma_one(x: real)
    ensures
        #[trigger] product(x, 1real) == x,
{
    reveal(product);
    assert(x * 1real == x) by (nonlinear_arith);
}

/// How products expand.
broadcast group group_expand {
    lemma_sum_right,
    lemma_difference_right,
    lemma_sum_left,
    lemma_difference_left,
    lemma_double_right,
    lemma_double_left,
    lemma_one,
}

proof fn lemma_swapped(x: real, y: real)
    ensures
        product(x, y) == product(y, x),
{
    reveal(product);
    assert(x * y == y * x) by (nonlinear_arith);
}

proof fn lemma_regrouped(x: real, y: real, z: real)
    ensures
        product(product(x, y), z) == product(x, product(y, z)),
        product(product(x, y), z) == product(product(x, z), y),
        product(x, product(y, z)) == product(y, product(x, z)),
{
    reveal(product);
    assert((x * y) * z == x * (y * z)) by (nonlinear_arith);
    assert((x * y) * z == (x * z) * y) by (nonlinear_arith);
    assert(x * (y * z) == y * (x * z)) by (nonlinear_arith);
}

proof fn lemma_not_negative(x: real, y: real)
    requires
        x >= 0real,
        y >= 0real,
    ensures
        product(x, y) >= 0real,
        x > 0real && y > 0real ==> product(x, y) > 0real,
        x == 0real || y == 0real ==> product(x, y) == 0real,
{
    reveal(product);
    assert(x * y >= 0real) by (nonlinear_arith)
        requires
            x >= 0real,
            y >= 0real,
    ;
    if x > 0real && y > 0real {
        assert(x * y > 0real) by (nonlinear_arith)
            requires
                x > 0real,
                y > 0real,
        ;
    }
    if x == 0real {
        assert(0real * y == 0real) by (nonlinear_arith);
    }
    if y == 0real {
        assert(x * 0real == 0real) by (nonlinear_arith);
    }
}

/// A factor has the sign of its product with a positive number.
proof fn lemma_factor(x: real, d: real)
    requires
        d > 0real,
    ensures
        product(x, d) >= 0real ==> x >= 0real,
        product(x, d) > 0real ==> x > 0real,
        product(x, d) == 0real ==> x == 0real,
{
    if x < 0real {
        lemma_not_negative(-x, d);
        reveal(product);
        assert((-x) * d == -(x * d)) by (nonlinear_arith);
    } else {
        lemma_not_negative(x, d);
    }
}

/// A quotient times its divisor.
proof fn lemma_quotient(x: real, d: real)
    requires
        d > 0real,
    ensures
        product(x / d, d) == x,
{
    reveal(product);
    assert((x / d) * d == x) by (nonlinear_arith)
        requires
            d > 0real,
    ;
}

/// A fraction times its rest and times itself make up the fraction.
proof fn lemma_fraction(t: real)
    ensures
        product(t, 1real - t) + product(t, t) == t,
        product(1real - t, 1real - t) == 1real - 2real * t + product(t, t),
        product(1real - t, t) == product(t, 1real - t),
{
    broadcast use group_expand;

    lemma_swapped(1real - t, t);
    lemma_swapped(1real, t);
    assert(product(1real - t, 1real - t) == product(1real - t, 1real) - product(1real - t, t));
}

/// The denominator is what is gone and what is left.
proof fn lemma_parts(s: real, a: real, b: real, t: real)
    ensures
        denominator(s, a, b, t) == gone(s, a, t) + gone(s, b, 1real - t),
{
    broadcast use group_expand;

    let (p, q) = (product(t, 1real - t), product(t, t));
    lemma_fraction(t);
    let r = 1real - t;
    assert(gone(s, b, r) == product(s, product(r, r)) + product(b, product(r, t))) by {
        assert(1real - r == t);
    }
    assert(product(s, t) == product(s, p) + product(s, q)) by {
        assert(product(s, p + q) == product(s, p) + product(s, q));
    }
    assert(product(s, product(r, r)) == s - 2real * product(s, t) + product(s, q)) by {
        assert(product(s, (1real - 2real * t) + q) == product(s, 1real - 2real * t) + product(s, q));
        assert(product(s, 1real - 2real * t) == product(s, 1real) - product(s, 2real * t));
    }
    assert(product(a + b - 2real * s, p) == product(a, p) + product(b, p) - 2real * product(s, p))
        by {
        assert(product((a + b) - 2real * s, p) == product(a + b, p) - product(2real * s, p));
    }
}

/// The quadratic at the fraction is what the height is too much.
proof fn lemma_quadratic(
    h: real,
    s: real,
    a: real,
    e: real,
    y: real,
    t: real,
    p: real,
    q: real,
)
    requires
        p + q == t,
    ensures
        product(product(y, e) + product(h, s - a), q) + product(product(h, a) - product(y, e), t)
            - product(s, y) == product(h, product(s, q) + product(a, p)) - product(
            y,
            s + product(e, p),
        ),
{
    broadcast use group_expand;

    let (ye, ha, hs) = (product(y, e), product(h, a), product(h, s));
    assert(product(h, s - a) == hs - ha);
    assert(product(ye + (hs - ha), q) == product(ye, q) + product(hs - ha, q));
    assert(product(ha, p + q) == product(ha, p) + product(ha, q));
    assert(product(ye, p + q) == product(ye, p) + product(ye, q));
    assert(product(ha - ye, t) == product(ha, t) - product(ye, t));
    lemma_regrouped(h, s, q);
    lemma_regrouped(h, a, p);
    lemma_regrouped(y, e, p);
    lemma_swapped(y, s);
}

/// The discriminant is the square of the slope of the quadratic at its root.
proof fn lemma_square(i: real, j: real, k: real, t: real)
    requires
        product(i, product(t, t)) + product(j, t) + k == 0real,
    ensures
        product(2real * product(i, t) + j, 2real * product(i, t) + j) == product(j, j) - 4real
            * product(i, k),
{
    broadcast use group_expand;

    let x = product(i, t);
    let slope = 2real * x + j;
    assert(product(slope, slope) == product(slope, 2real * x) + product(slope, j));
    assert(product(slope, x) == product(2real * x, x) + product(j, x));
    assert(product(slope, j) == product(2real * x, j) + product(j, j));
    lemma_swapped(j, x);
    lemma_regrouped(i, t, x);
    lemma_regrouped(t, i, t);
    lemma_swapped(t, x);
    lemma_regrouped(i, t, t);
    assert(product(x, x) == product(i, product(i, product(t, t))));
    lemma_regrouped(i, t, j);
    lemma_swapped(t, j);
    assert(product(x, j) == product(i, product(j, t)));
    let (u, v) = (product(i, product(t, t)), product(j, t));
    assert(product(i, u + v) == product(i, u) + product(i, v));
    assert(k == 0real - (u + v));
    lemma_not_negative(0real, 0real);
    assert(product(i, 0real - (u + v)) == product(i, 0real) - product(i, u + v));
    assert(product(i, 0real) == 0real) by {
        reveal(product);
        assert(i * 0real == 0real) by (nonlinear_arith);
    }
}

/// What is gone is not negative, and positive beyond the left edge.
proof fn lemma_gone(s: real, a: real, t: real)
    requires
        s > 0real,
        a > 0real,
        0real <= t <= 1real,
    ensures
        gone(s, a, t) >= 0real,
        t > 0real ==> gone(s, a, t) > 0real,
        t == 0real ==> gone(s, a, t) == 0real,
{
    lemma_not_negative(t, 1real - t);
    lemma_not_negative(a, product(t, 1real - t));
    lemma_not_negative(t, t);
    lemma_not_negative(s, product(t, t));
}

/// The denominator is positive, and the height lies between zero and `h`, which it reaches only at
/// the right edge.
pub proof fn lemma_rise(h: real, s: real, a: real, b: real, t: real)
    requires
        h > 0real,
        s > 0real,
        a > 0real,
        b > 0real,
        0real <= t <= 1real,
    ensures
        denominator(s, a, b, t) > 0real,
        0real <= rise(h, s, a, b, t) <= h,
        t == 0real ==> rise(h, s, a, b, t) == 0real,
        t > 0real ==> rise(h, s, a, b, t) > 0real,
        t < 1real ==> rise(h, s, a, b, t) < h,
        t == 1real ==> rise(h, s, a, b, t) == h,
        product(rise(h, s, a, b, t), denominator(s, a, b, t)) == product(h, gone(s, a, t)),
{
    broadcast use {lemma_difference_left, lemma_difference_right};

    lemma_parts(s, a, b, t);
    lemma_gone(s, a, t);
    lemma_gone(s, b, 1real - t);
    let n = gone(s, a, t);
    let d = denominator(s, a, b, t);
    let y = rise(h, s, a, b, t);
    lemma_quotient(product(h, n), d);
    lemma_not_negative(h, n);
    lemma_factor(y, d);
    lemma_not_negative(h, d - n);
    assert(product(h - y, d) == product(h, d) - product(y, d));
    assert(product(h, d - n) == product(h, d) - product(h, n));
    lemma_factor(h - y, d);
}

/// What the slope of the quadratic comes from is a sum of products of numbers that are not
/// negative.
proof fn lemma_slope_sum(s: real, a: real, b: real, t: real, p: real, q: real)
    requires
        p + q == t,
        q == product(t, t),
    ensures
        ({
            let e = a + b - 2real * s;
            let n = product(s, q) + product(a, p);
            let d = s + product(e, p);
            let v = 2real * product(s, t) - 2real * product(a, t) + a;
            product(n, 2real * product(e, t) - e) + product(v, d) == product(
                s,
                product(b, q) + 2real * product(s, p) + product(a, 1real - 2real * t + q),
            )
        }),
{
    broadcast use group_expand;

    let e = a + b - 2real * s;
    let n = product(s, q) + product(a, p);
    let d = s + product(e, p);
    let (st, at, et, ep) = (product(s, t), product(a, t), product(e, t), product(e, p));
    let (es, ea) = (product(e, s), product(e, a));
    let v = 2real * st - 2real * at + a;
    // The first product.
    assert(product(n, 2real * et - e) == 2real * product(n, et) - product(n, e)) by {
        lemma_difference_right(n, 2real * et, e);
        lemma_double_right(n, et);
    }
    assert(product(n, e) == product(es, q) + product(ea, p)) by {
        lemma_swapped(product(s, q), e);
        lemma_regrouped(e, s, q);
        lemma_swapped(product(a, p), e);
        lemma_regrouped(e, a, p);
    }
    assert(product(n, et) == product(product(es, q), t) + product(product(ea, p), t)) by {
        lemma_regrouped(n, e, t);
    }
    // The second product.
    assert(product(v, d) == product(v, s) + product(v, ep));
    assert(product(v, s) == 2real * product(st, s) - 2real * product(at, s) + product(a, s)) by {
        lemma_sum_left(2real * st - 2real * at, a, s);
        lemma_difference_left(2real * st, 2real * at, s);
        lemma_double_left(st, s);
        lemma_double_left(at, s);
    }
    assert(product(v, ep) == 2real * product(st, ep) - 2real * product(at, ep) + product(a, ep)) by {
        lemma_sum_left(2real * st - 2real * at, a, ep);
        lemma_difference_left(2real * st, 2real * at, ep);
        lemma_double_left(st, ep);
        lemma_double_left(at, ep);
    }
    assert(product(a, ep) == product(ea, p)) by {
        lemma_regrouped(a, e, p);
        lemma_swapped(a, e);
    }
    lemma_moved(a, t, e, p);
    lemma_moved(s, t, e, p);
    // Together.
    assert(product(product(es, q), t) + product(product(es, p), t) == product(es, q)) by {
        assert(product(es, p + q) == product(es, p) + product(es, q));
        assert(product(product(es, p) + product(es, q), t) == product(product(es, p), t) + product(
            product(es, q),
            t,
        ));
        lemma_regrouped(es, t, t);
    }
    // The sum.
    let sum = product(e, q) + 2real * st - 2real * at + a;
    assert(product(s, sum) == product(es, q) + 2real * product(st, s) - 2real * product(at, s)
        + product(a, s)) by {
        assert(product(s, (product(e, q) + 2real * st - 2real * at) + a) == product(
            s,
            product(e, q) + 2real * st - 2real * at,
        ) + product(s, a));
        assert(product(s, (product(e, q) + 2real * st) - 2real * at) == product(
            s,
            product(e, q) + 2real * st,
        ) - product(s, 2real * at));
        assert(product(s, product(e, q) + 2real * st) == product(s, product(e, q)) + product(
            s,
            2real * st,
        ));
        lemma_regrouped(s, e, q);
        lemma_swapped(s, e);
        lemma_swapped(s, st);
        lemma_swapped(s, at);
        lemma_swapped(s, a);
    }
    assert(sum == product(b, q) + 2real * product(s, p) + product(a, 1real - 2real * t + q)) by {
        assert(product((a + b) - 2real * s, q) == product(a + b, q) - product(2real * s, q));
        assert(product(s, p + q) == product(s, p) + product(s, q));
        assert(product(a, (1real - 2real * t) + q) == product(a, 1real - 2real * t) + product(a, q));
        assert(product(a, 1real - 2real * t) == product(a, 1real) - product(a, 2real * t));
    }
}

/// Four factors in another order.
proof fn lemma_moved(a: real, t: real, e: real, p: real)
    ensures
        product(product(a, t), product(e, p)) == product(product(product(e, a), p), t),
{
    let at = product(a, t);
    lemma_regrouped(at, e, p);
    lemma_swapped(at, e);
    lemma_regrouped(e, a, t);
    assert(product(at, product(e, p)) == product(product(product(e, a), t), p));
    lemma_regrouped(product(e, a), t, p);
}

/// The quadratic does not fall at the fraction.
proof fn lemma_slope(h: real, s: real, a: real, b: real, t: real)
    requires
        h > 0real,
        s > 0real,
        a > 0real,
        b > 0real,
        0real <= t <= 1real,
    ensures
        ({
            let y = rise(h, s, a, b, t);
            2real * product(first(h, s, a, b, y), t) + second(h, s, a, b, y) >= 0real
        }),
{
    broadcast use group_expand;

    lemma_rise(h, s, a, b, t);
    lemma_fraction(t);
    let y = rise(h, s, a, b, t);
    let e = a + b - 2real * s;
    let (p, q) = (product(t, 1real - t), product(t, t));
    let n = product(s, q) + product(a, p);
    let d = s + product(e, p);
    let (ye, ha, hs) = (product(y, e), product(h, a), product(h, s));
    let v = 2real * product(s, t) - 2real * product(a, t) + a;
    let ew = 2real * product(e, t) - e;
    let slope = 2real * product(first(h, s, a, b, y), t) + second(h, s, a, b, y);
    assert(product(h, s - a) == hs - ha);
    assert(product(ye + (hs - ha), t) == product(ye, t) + product(hs - ha, t));
    assert(product(hs - ha, t) == product(hs, t) - product(ha, t));
    assert(product(y, ew) == 2real * product(ye, t) - ye) by {
        assert(product(y, 2real * product(e, t) - e) == product(y, 2real * product(e, t)) - product(
            y,
            e,
        ));
        lemma_regrouped(y, e, t);
    }
    assert(product(h, v) == 2real * product(hs, t) - 2real * product(ha, t) + ha) by {
        lemma_sum_right(h, 2real * product(s, t) - 2real * product(a, t), a);
        lemma_difference_right(h, 2real * product(s, t), 2real * product(a, t));
        lemma_double_right(h, product(s, t));
        lemma_double_right(h, product(a, t));
        lemma_regrouped(h, s, t);
        lemma_regrouped(h, a, t);
    }
    assert(slope == product(y, ew) + product(h, v));
    assert(product(slope, d) == product(product(y, ew), d) + product(product(h, v), d));
    lemma_regrouped(y, ew, d);
    assert(product(product(y, ew), d) == product(product(y, d), ew));
    lemma_regrouped(h, n, ew);
    lemma_regrouped(h, v, d);
    let bracket = product(n, ew) + product(v, d);
    assert(product(h, bracket) == product(h, product(n, ew)) + product(h, product(v, d)));
    assert(product(slope, d) == product(h, bracket));
    lemma_slope_sum(s, a, b, t, p, q);
    let r = 1real - t;
    lemma_not_negative(t, t);
    lemma_not_negative(t, r);
    lemma_not_negative(r, r);
    lemma_not_negative(b, q);
    lemma_not_negative(s, p);
    lemma_not_negative(a, product(r, r));
    let sum = product(b, q) + 2real * product(s, p) + product(a, 1real - 2real * t + q);
    lemma_not_negative(s, sum);
    lemma_not_negative(h, bracket);
    lemma_factor(slope, d);
}

/// A number that is not negative is the root of its square.
proof fn lemma_root(root: real, number: real)
    requires
        root >= 0real,
        number >= 0real,
        product(root, root) == product(number, number),
    ensures
        root == number,
{
    broadcast use group_expand;

    let (d, e) = (root - number, root + number);
    assert(product(d, e) == product(root, e) - product(number, e));
    lemma_swapped(root, number);
    if e > 0real {
        lemma_factor(d, e);
    }
}

/// At the fraction the quadratic of its height is zero, does not fall, and has a positive rest.
proof fn lemma_at_root(h: real, s: real, a: real, b: real, t: real)
    requires
        h > 0real,
        s > 0real,
        a > 0real,
        b > 0real,
        0real <= t <= 1real,
    ensures
        ({
            let y = rise(h, s, a, b, t);
            let (i, j, k) = (first(h, s, a, b, y), second(h, s, a, b, y), third(s, y));
            let last = product(i, t) + j;
            &&& product(i, product(t, t)) + product(j, t) + k == 0real
            &&& product(last, t) == product(s, y)
            &&& last > 0real
            &&& product(i, t) + last >= 0real
        }),
{
    broadcast use group_expand;

    lemma_rise(h, s, a, b, t);
    lemma_fraction(t);
    let y = rise(h, s, a, b, t);
    let e = a + b - 2real * s;
    let (p, q) = (product(t, 1real - t), product(t, t));
    let (i, j, k) = (first(h, s, a, b, y), second(h, s, a, b, y), third(s, y));
    lemma_quadratic(h, s, a, e, y, t, p, q);
    lemma_slope(h, s, a, b, t);
    let last = product(i, t) + j;
    assert(product(last, t) == product(s, y)) by {
        assert(product(product(i, t) + j, t) == product(product(i, t), t) + product(j, t));
        lemma_regrouped(i, t, t);
    }
    lemma_not_negative(s, y);
    if t > 0real {
        lemma_factor(last, t);
    } else {
        lemma_not_negative(h, a);
        assert(product(i, t) == 0real && product(y, e) == 0real) by {
            reveal(product);
            assert(i * 0real == 0real) by (nonlinear_arith);
            assert(0real * e == 0real) by (nonlinear_arith);
        }
    }
}

/// The fraction at which a height is reached is found again from the height.
pub proof fn lemma_found(h: real, s: real, a: real, b: real, t: real, root: real)
    requires
        h > 0real,
        s > 0real,
        a > 0real,
        b > 0real,
        0real <= t <= 1real,
        ({
            let whole = discriminant(h, s, a, b, rise(h, s, a, b, t));
            whole >= 0real ==> root >= 0real && product(root, root) == whole
        }),
    ensures
        ({
            let y = rise(h, s, a, b, t);
            &&& discriminant(h, s, a, b, y) >= 0real
            &&& (2real * third(s, y)) / (-second(h, s, a, b, y) - root) == t
        }),
{
    let y = rise(h, s, a, b, t);
    let (i, j, k) = (first(h, s, a, b, y), second(h, s, a, b, y), third(s, y));
    let last = product(i, t) + j;
    let slope = 2real * product(i, t) + j;
    lemma_at_root(h, s, a, b, t);
    lemma_square(i, j, k, t);
    lemma_not_negative(slope, slope);
    lemma_root(root, slope);
    let above = 2real * last;
    assert(-j - root == -above);
    assert(product(t, above) == 2real * product(s, y)) by {
        lemma_double_right(t, last);
        lemma_swapped(last, t);
    }
    lemma_divided(2real * k, t, above);
}

/// The further on, the higher.
pub proof fn lemma_rises(h: real, s: real, a: real, b: real, t: real, u: real)
    requires
        h > 0real,
        s > 0real,
        a > 0real,
        b > 0real,
        0real <= t < u <= 1real,
    ensures
        rise(h, s, a, b, t) < rise(h, s, a, b, u),
{
    let y = rise(h, s, a, b, u);
    let e = a + b - 2real * s;
    let (i, j, k) = (first(h, s, a, b, y), second(h, s, a, b, y), third(s, y));
    let last = product(i, u) + j;
    lemma_at_root(h, s, a, b, u);
    lemma_rise(h, s, a, b, t);
    lemma_fraction(t);
    lemma_quadratic(h, s, a, e, y, t, product(t, 1real - t), product(t, t));
    let (n, d) = (gone(s, a, t), denominator(s, a, b, t));
    let rest = product(i, t) + last;
    // The quadratic of the greater height is negative before its root.
    assert(product(t - u, rest) == product(i, product(t, t)) + product(j, t) - product(
        i,
        product(u, u),
    ) - product(j, u)) by {
        lemma_difference_left(t, u, rest);
        lemma_sum_right(t, product(i, t), last);
        lemma_sum_right(t, product(i, u), j);
        lemma_sum_right(u, product(i, t), last);
        lemma_sum_right(u, product(i, u), j);
        lemma_regrouped(t, i, t);
        lemma_regrouped(t, i, u);
        lemma_regrouped(u, i, t);
        lemma_regrouped(u, i, u);
        lemma_swapped(t, u);
        lemma_swapped(t, j);
        lemma_swapped(u, j);
    }
    // What is left of it is between two numbers that are not negative.
    assert(rest > 0real) by {
        lemma_sum_right(u, product(i, t), last);
        lemma_difference_left(u, t, last);
        lemma_sum_right(t, product(i, u), last);
        lemma_regrouped(u, i, t);
        lemma_regrouped(t, i, u);
        lemma_swapped(t, u);
        lemma_not_negative(u - t, last);
        lemma_not_negative(t, product(i, u) + last);
        lemma_swapped(u, rest);
        lemma_factor(rest, u);
    }
    lemma_difference_left(t, u, rest);
    lemma_difference_left(u, t, rest);
    lemma_not_negative(u - t, rest);
    lemma_difference_left(y, rise(h, s, a, b, t), d);
    lemma_factor(y - rise(h, s, a, b, t), d);
}

/// A negative product divided by the negative of one of its factors.
proof fn lemma_divided(x: real, t: real, d: real)
    requires
        d > 0real,
        -x == product(t, d),
    ensures
        x / (-d) == t,
{
    reveal(product);
    assert((-(t * d)) / (-d) == t) by (nonlinear_arith)
        requires
            d > 0real,
    ;
    assert(x == -(t * d));
}

/// The height, written out.
pub proof fn lemma_rise_written(h: real, s: real, a: real, b: real, t: real)
    ensures
        rise(h, s, a, b, t) == h * (s * (t * t) + a * (t * (1real - t))) / (s + (a + b - s * 2real)
            * (t * (1real - t))),
{
    reveal(product);
    assert(s * 2real == 2real * s);
}

/// The root, written out.
pub proof fn lemma_root_written(h: real, s: real, a: real, b: real, y: real)
    ensures
        ({
            let i = y * (a + b - s * 2real) + h * (s - a);
            let j = h * a - y * (a + b - s * 2real);
            let k = -s * y;
            &&& j == second(h, s, a, b, y)
            &&& k * 2real == 2real * third(s, y)
            &&& j * j - i * 4real * k == discriminant(h, s, a, b, y)
        }),
{
    reveal(product);
    let i = y * (a + b - s * 2real) + h * (s - a);
    let k = -s * y;
    assert(s * 2real == 2real * s);
    assert(-s * y == -(s * y)) by (nonlinear_arith);
    assert(i * 4real * k == 4real * (i * k)) by (nonlinear_arith);
    assert(i == first(h, s, a, b, y));
    assert(k == third(s, y));
}

} // verus!

//! What holds of splines: which bin an input falls into, and what they do beyond their bounds.

use crate::number::{Real, Scalar, ONE, ZERO};
use crate::predictor::ConvFlow;
use crate::shape::Shape;
use crate::spline::{SplineBox, EDGE_TOLERANCE};
use crate::tensor::{BinaryOp, ScalarOp, Tensor, UnaryOp};
use crate::value::Reading;
use vstd::prelude::*;

verus! {

/// An edge of a row, the last one moved up.
pub open spec fn moved_edge(
    bin_locations: Tensor,
    eps: u64,
    row: int,
    k: int,
    m: Reading,
) -> real {
    let edge = crate::value::value(bin_locations, seq![row, k], m);
    if k == bin_locations.at(1) - 1 {
        edge + crate::number::double(eps)
    } else {
        edge
    }
}

/// How many of the first `n` edges are not above an input, where none is above a later one.
proof fn lemma_counted(n: nat, edges: spec_fn(int) -> real, v: real) -> (c: int)
    requires
        forall|k: int, l: int|
            0 <= k <= l < n ==> #[trigger] edges(k) <= #[trigger] edges(l),
    ensures
        0 <= c <= n,
        c > 0 ==> edges(c - 1) <= v,
        c < n ==> v < edges(c),
        crate::value::sum(n, |k: int| crate::value::truth(v >= edges(k))) == c as real,
    decreases n,
{
    let row = |k: int| crate::value::truth(v >= edges(k));
    if n == 0 {
        0
    } else {
        let c = lemma_counted((n - 1) as nat, edges, v);
        assert(crate::value::sum(n, row) == crate::value::sum((n - 1) as nat, row) + row(n - 1));
        if c == n - 1 && edges(n - 1) <= v {
            c + 1
        } else {
            if c < n - 1 {
                assert(edges(c) <= edges(n - 1));
            }
            c
        }
    }
}

/// A truth as a whole number.
proof fn lemma_truth(b: bool)
    ensures
        crate::value::truncated(crate::value::truth(b)) as real == crate::value::truth(b),
{
    let whole = if b {
        1int
    } else {
        0int
    };
    assert(crate::value::truth(b) == whole as real);
}

/// The edges with the last one moved up.
proof fn lemma_moved(bin_locations: Tensor, eps: u64, row: int, k: int, m: Reading)
    requires
        bin_locations.shape.rank() == 2,
        0 <= row < bin_locations.at(0),
        0 <= k < bin_locations.at(1),
    ensures
        ({
            let last = (bin_locations.at(1) - 1) as usize;
            let moved = bin_locations.slice_assign_expr(
                1,
                last,
                bin_locations.slice_expr(1, last, bin_locations.at(1)).scalar_expr(
                    ScalarOp::Add,
                    Scalar::literal_expr(eps),
                ),
            );
            &&& moved.shape == bin_locations.shape
            &&& crate::value::value(moved, seq![row, k], m) == moved_edge(
                bin_locations,
                eps,
                row,
                k,
                m,
            )
        }),
{
    broadcast use crate::value::lemma_scalar_value;

    let last = (bin_locations.at(1) - 1) as usize;
    let end = bin_locations.slice_expr(1, last, bin_locations.at(1));
    let raised = end.scalar_expr(ScalarOp::Add, Scalar::literal_expr(eps));
    let idx = seq![row, k];
    assert(crate::element::within(bin_locations.shape, idx));
    crate::value::lemma_slice_assign_value(bin_locations, 1, last, raised, idx, m);
    if k == last {
        let at = seq![row, 0];
        assert(end.shape == Shape::D2(bin_locations.at(0), 1)) by {
            reveal(Tensor::slice_expr);
        }
        assert(crate::element::unstretched(end.shape, idx) =~= crate::element::unstretched(
            end.shape,
            at,
        ));
        crate::value::lemma_stretched(end, idx, at, m);
        crate::value::lemma_slice_value(bin_locations, 1, last, bin_locations.at(1), at, m);
        assert(at.update(1, at[1] + last) =~= idx);
    }
}

/// The index found for an input is that of the last edge that is not above it, the last edge moved
/// up: no edge up to it is above the input, and every later one is.
pub proof fn lemma_last_edge_not_above(
    bin_locations: Tensor,
    inputs: Tensor,
    eps: u64,
    row: int,
    m: Reading,
) -> (j: int)
    requires
        inputs.shape.rank() == 1,
        bin_locations.shape == Shape::D2(inputs.at(0), bin_locations.at(1)),
        bin_locations.at(1) >= 1,
        0 <= row < inputs.at(0),
        forall|k: int, l: int|
            0 <= k <= l < bin_locations.at(1) ==> #[trigger] moved_edge(
                bin_locations,
                eps,
                row,
                k,
                m,
            ) <= #[trigger] moved_edge(bin_locations, eps, row, l, m),
    ensures
        crate::value::value(
            crate::spline::searchsorted_expr(bin_locations, inputs, eps),
            seq![row],
            m,
        ) == j as real,
        -1 <= j < bin_locations.at(1),
        j >= 0 ==> moved_edge(bin_locations, eps, row, j, m) <= crate::value::value(
            inputs,
            seq![row],
            m,
        ),
        j + 1 < bin_locations.at(1) ==> crate::value::value(inputs, seq![row], m) < moved_edge(
            bin_locations,
            eps,
            row,
            j + 1,
            m,
        ),
{
    let v = crate::value::value(inputs, seq![row], m);
    let n = bin_locations.at(1) as nat;
    let edges = |k: int| moved_edge(bin_locations, eps, row, k, m);
    assert forall|k: int, l: int| 0 <= k <= l < n implies #[trigger] edges(k) <= #[trigger] edges(
        l,
    ) by {
        assert(moved_edge(bin_locations, eps, row, k, m) <= moved_edge(
            bin_locations,
            eps,
            row,
            l,
            m,
        ));
    }
    let c = lemma_counted(n, edges, v);
    lemma_compared(bin_locations, inputs, eps, row, edges, m);
    assert(edges(c - 1) == moved_edge(bin_locations, eps, row, c - 1, m));
    assert(edges(c) == moved_edge(bin_locations, eps, row, c, m));
    c - 1
}

/// The index is the number of edges that are not above the input, less one.
proof fn lemma_compared(
    bin_locations: Tensor,
    inputs: Tensor,
    eps: u64,
    row: int,
    edges: spec_fn(int) -> real,
    m: Reading,
)
    requires
        inputs.shape.rank() == 1,
        bin_locations.shape == Shape::D2(inputs.at(0), bin_locations.at(1)),
        bin_locations.at(1) >= 1,
        0 <= row < inputs.at(0),
        edges == (|k: int| moved_edge(bin_locations, eps, row, k, m)),
    ensures
        crate::value::value(
            crate::spline::searchsorted_expr(bin_locations, inputs, eps),
            seq![row],
            m,
        ) == crate::value::sum(
            bin_locations.at(1) as nat,
            |k: int|
                crate::value::truth(crate::value::value(inputs, seq![row], m) >= edges(k)),
        ) - 1real,
{
    broadcast use {crate::value::lemma_scalar_value, crate::value::lemma_unary_value};

    let last = (bin_locations.at(1) - 1) as usize;
    let moved = bin_locations.slice_assign_expr(
        1,
        last,
        bin_locations.slice_expr(1, last, bin_locations.at(1)).scalar_expr(
            ScalarOp::Add,
            Scalar::literal_expr(eps),
        ),
    );
    let v = crate::value::value(inputs, seq![row], m);
    let rows = inputs.unsqueeze_expr(1);
    let compared = rows.binary_expr(BinaryOp::GreaterEqual, moved);
    let whole = compared.unary_expr(UnaryOp::ToInt);
    let counts = whole.sum_dim_expr(1);
    lemma_moved(bin_locations, eps, row, 0, m);
    assert(rows.shape == Shape::D2(inputs.at(0), 1)) by {
        reveal(Tensor::reshape_expr);
    }
    assert(compared.shape == bin_locations.shape && whole.shape == bin_locations.shape) by {
        reveal(Tensor::binary_expr);
        reveal(Tensor::unary_expr);
    }
    assert(counts.shape == Shape::D2(inputs.at(0), 1)) by {
        reveal(Tensor::sum_dim_expr);
    }
    let origin = seq![row, 0];
    assert(crate::element::flat(counts.shape, origin) == row) by {
        vstd::arithmetic::mul::lemma_mul_basics(row);
    }
    crate::value::lemma_sum_value(whole, 1, origin, m);
    let n = bin_locations.at(1) as nat;
    let cells = |k: int| crate::value::value(whole, origin.update(1, k), m);
    let wanted = |k: int| crate::value::truth(v >= edges(k));
    assert forall|k: int| 0 <= k < n implies #[trigger] cells(k) == wanted(k) by {
        let idx = seq![row, k];
        assert(origin.update(1, k) =~= idx);
        lemma_moved(bin_locations, eps, row, k, m);
        crate::value::lemma_binary_value(rows, BinaryOp::GreaterEqual, moved, idx, m);
        assert(crate::element::unstretched(rows.shape, idx) =~= crate::element::unstretched(
            rows.shape,
            origin,
        ));
        crate::value::lemma_stretched(rows, idx, origin, m);
        crate::value::lemma_reshape_value(inputs, rows.shape, origin, seq![row], m);
        lemma_truth(v >= edges(k));
    }
    crate::value::lemma_same_sum(n, cells, wanted);
    crate::value::lemma_reshape_value(counts, Shape::D1(inputs.at(0)), seq![row], origin, m);
    assert(crate::value::number(Scalar::literal_expr(ONE), m) == 1real) by {
        crate::number::lemma_small_numbers();
    }
}

/// Shares of a whole, each at least as great as a minimum, add up as the parts do.
proof fn lemma_shares(
    n: nat,
    parts: spec_fn(int) -> real,
    all: real,
    rest: real,
    least: real,
    shares: spec_fn(int) -> real,
)
    requires
        all > 0real,
        forall|k: int| 0 <= k < n ==> #[trigger] shares(k) == parts(k) / all * rest + least,
    ensures
        crate::value::sum(n, shares) == crate::value::sum(n, parts) / all * rest + (
        n as int as real) * least,
    decreases n,
{
    if n == 0 {
        assert(0real / all * rest == 0real) by (nonlinear_arith)
            requires
                all > 0real,
        ;
        assert(0real * least == 0real) by (nonlinear_arith);
    } else {
        lemma_shares((n - 1) as nat, parts, all, rest, least, shares);
        assert(shares(n - 1) == parts(n - 1) / all * rest + least);
        let before = crate::value::sum((n - 1) as nat, parts);
        let last = parts(n - 1);
        assert((before + last) / all == before / all + last / all) by (nonlinear_arith)
            requires
                all > 0real,
        ;
        let (u, v) = (before / all, last / all);
        assert((u + v) * rest == u * rest + v * rest) by (nonlinear_arith);
        let count = (n - 1) as real;
        assert((count + 1real) * least == count * least + least) by (nonlinear_arith);
        assert(n as int as real == count + 1real);
    }
}

/// Sums of positive numbers grow.
proof fn lemma_growing(k: nat, l: nat, row: spec_fn(int) -> real)
    requires
        k < l,
        forall|i: int| 0 <= i < l ==> #[trigger] row(i) > 0real,
    ensures
        crate::value::sum(k, row) < crate::value::sum(l, row),
    decreases l,
{
    assert(row(l - 1) > 0real);
    if k < l - 1 {
        lemma_growing(k, (l - 1) as nat, row);
    }
}

/// A sum of positive numbers is positive.
proof fn lemma_positive_sum(n: nat, row: spec_fn(int) -> real)
    requires
        n > 0,
        forall|i: int| 0 <= i < n ==> #[trigger] row(i) > 0real,
    ensures
        crate::value::sum(n, row) > 0real,
{
    lemma_growing(0, n, row);
}

/// A part of a positive whole, scaled and raised, is positive, where either does anything.
proof fn lemma_share_positive(part: real, all: real, rest: real, least: real)
    requires
        part > 0real,
        all > 0real,
        rest >= 0real,
        least >= 0real,
        rest > 0real || least > 0real,
    ensures
        part / all * rest + least > 0real,
{
    let share = part / all;
    assert(part / all > 0real) by (nonlinear_arith)
        requires
            part > 0real,
            all > 0real,
    ;
    assert(share * rest >= 0real) by (nonlinear_arith)
        requires
            share > 0real,
            rest >= 0real,
    ;
    if rest > 0real {
        assert(share * rest > 0real) by (nonlinear_arith)
            requires
                share > 0real,
                rest > 0real,
        ;
    }
}

/// The size of a bin of a row, as a share of all bins.
pub open spec fn bin_size(shares: Tensor, min_size: Real, row: int, k: int, m: Reading) -> real {
    let bins = shares.at(1);
    let least = crate::number::double(min_size.bits);
    (m.exp)(crate::value::value(shares, seq![row, k], m)) / crate::value::sum(
        bins as nat,
        |i: int| (m.exp)(crate::value::value(shares, seq![row, i], m)),
    ) * (1real - least * (bins as int as real)) + least
}

/// Whether bins of a least size fill the way from one bound to the other.
pub open spec fn bins_fit(
    shares: Tensor,
    min_size: Real,
    low: Scalar,
    high: Scalar,
    m: Reading,
) -> bool {
    let least = crate::number::double(min_size.bits);
    &&& m.exponential()
    &&& shares.shape.rank() == 2
    &&& 1 <= shares.at(1) < usize::MAX
    &&& crate::value::number(low, m) < crate::value::number(high, m)
    &&& least >= 0real
    &&& least * (shares.at(1) as int as real) <= 1real
}

/// The bins of a row have positive sizes, which make up the whole.
proof fn lemma_bin_sizes(
    shares: Tensor,
    min_size: Real,
    low: Scalar,
    high: Scalar,
    row: int,
    sizes: spec_fn(int) -> real,
    m: Reading,
)
    requires
        bins_fit(shares, min_size, low, high, m),
        sizes == (|k: int| bin_size(shares, min_size, row, k, m)),
    ensures
        forall|k: int| #[trigger] sizes(k) > 0real,
        crate::value::sum(shares.at(1) as nat, sizes) == 1real,
{
    let bins = shares.at(1) as nat;
    let least = crate::number::double(min_size.bits);
    let rest = 1real - least * (bins as int as real);
    let parts = |i: int| (m.exp)(crate::value::value(shares, seq![row, i], m));
    let all = crate::value::sum(bins, parts);
    assert forall|k: int| #[trigger] parts(k) > 0real by {}
    lemma_positive_sum(bins, parts);
    assert forall|k: int| #[trigger] sizes(k) == parts(k) / all * rest + least by {}
    let count = bins as int as real;
    assert(least == 0real ==> least * count == 0real) by {
        assert(0real * count == 0real) by (nonlinear_arith);
    }
    assert forall|k: int| #[trigger] sizes(k) > 0real by {
        assert(parts(k) > 0real);
        lemma_share_positive(parts(k), all, rest, least);
    }
    lemma_shares(bins, parts, all, rest, least, sizes);
    assert(all / all * rest == rest) by (nonlinear_arith)
        requires
            all > 0real,
    ;
    assert(count * least == least * count) by (nonlinear_arith);
}

/// The sizes of the bins, as the recipe has them.
proof fn lemma_size_value(shares: Tensor, min_size: Real, row: int, k: int, m: Reading)
    requires
        shares.shape.rank() == 2,
        0 <= row < shares.at(0),
        0 <= k < shares.at(1),
    ensures
        ({
            let least = Scalar::Literal(min_size);
            let rest = Scalar::literal_expr(ONE).sub_expr(
                least.mul_expr(Scalar::Count(shares.at(1))),
            );
            let sizes = shares.softmax_expr(1).scalar_expr(ScalarOp::Mul, rest).scalar_expr(
                ScalarOp::Add,
                least,
            );
            &&& sizes.shape == shares.shape
            &&& crate::value::value(sizes, seq![row, k], m) == bin_size(
                shares,
                min_size,
                row,
                k,
                m,
            )
        }),
{
    broadcast use crate::value::lemma_scalar_value;

    let least = Scalar::Literal(min_size);
    let product = least.mul_expr(Scalar::Count(shares.at(1)));
    let rest = Scalar::literal_expr(ONE).sub_expr(product);
    let idx = seq![row, k];
    assert(shares.softmax_expr(1).shape == shares.shape && shares.softmax_expr(1).scalar_expr(
        ScalarOp::Mul,
        rest,
    ).scalar_expr(ScalarOp::Add, least).shape == shares.shape) by {
        reveal(Tensor::softmax_expr);
        reveal(Tensor::scalar_expr);
    }
    crate::value::lemma_softmax_value(shares, 1, idx, m);
    let cells = |i: int| (m.exp)(crate::value::value(shares, idx.update(1, i), m));
    let wanted = |i: int| (m.exp)(crate::value::value(shares, seq![row, i], m));
    assert forall|i: int| 0 <= i < shares.at(1) implies #[trigger] cells(i) == wanted(i) by {
        assert(idx.update(1, i) =~= seq![row, i]);
    }
    crate::value::lemma_same_sum(shares.at(1) as nat, cells, wanted);
    let count = shares.at(1) as int as real;
    assert(crate::value::number(rest, m) == 1real - crate::number::double(min_size.bits) * count) by {
        reveal_with_fuel(crate::value::number, 3);
        crate::number::lemma_small_numbers();
    }
}

/// An edge is as far from the lower bound as the bins before it take up.
proof fn lemma_edge_value(
    shares: Tensor,
    min_size: Real,
    low: Scalar,
    high: Scalar,
    row: int,
    k: int,
    sizes: spec_fn(int) -> real,
    m: Reading,
)
    requires
        bins_fit(shares, min_size, low, high, m),
        0 <= row < shares.at(0),
        0 <= k <= shares.at(1),
        sizes == (|k: int| bin_size(shares, min_size, row, k, m)),
    ensures
        crate::spline::edges_expr(shares, min_size, low, high).shape == Shape::D2(
            shares.at(0),
            (shares.at(1) + 1) as usize,
        ),
        crate::value::value(
            crate::spline::edges_expr(shares, min_size, low, high),
            seq![row, k],
            m,
        ) == crate::value::number(low, m) + crate::value::sum(k as nat, sizes) * (
        crate::value::number(high, m) - crate::value::number(low, m)),
{
    broadcast use crate::value::lemma_scalar_value;

    let bins = shares.at(1);
    let least = Scalar::Literal(min_size);
    let rest = Scalar::literal_expr(ONE).sub_expr(least.mul_expr(Scalar::Count(bins)));
    let cells = shares.softmax_expr(1).scalar_expr(ScalarOp::Mul, rest).scalar_expr(
        ScalarOp::Add,
        least,
    );
    let summed = cells.cumsum_expr(1);
    let padded = summed.pad_expr(1, 1, 0);
    let placed = padded.scalar_expr(ScalarOp::Mul, high.sub_expr(low)).scalar_expr(
        ScalarOp::Add,
        low,
    );
    let begun = placed.slice_fill_expr(1, 0, low);
    let idx = seq![row, k];
    lemma_size_value(shares, min_size, row, 0, m);
    assert(padded.shape == Shape::D2(shares.at(0), (bins + 1) as usize) && placed.shape
        == padded.shape) by {
        reveal(Tensor::cumsum_expr);
        reveal(Tensor::pad_expr);
        reveal(Tensor::scalar_expr);
    }
    assert(crate::element::within(placed.shape, idx));
    crate::value::lemma_slice_fill_value(placed, 1, 0, low, idx, m);
    crate::value::lemma_slice_fill_value(begun, 1, bins, high, idx, m);
    let (lo, hi) = (crate::value::number(low, m), crate::value::number(high, m));
    let way = hi - lo;
    lemma_bin_sizes(shares, min_size, low, high, row, sizes, m);
    if k == 0 {
        assert(0real * way == 0real) by (nonlinear_arith);
    } else if k == bins {
        assert(1real * way == way) by (nonlinear_arith);
    } else {
        crate::value::lemma_pad_value(summed, 1, 1, 0, idx, m);
        let before = seq![row, k - 1];
        assert(idx.update(1, idx[1] - 1) =~= before);
        crate::value::lemma_cumsum_value(cells, 1, before, m);
        let along = |i: int| crate::value::value(cells, before.update(1, i), m);
        assert forall|i: int| 0 <= i < k implies #[trigger] along(i) == sizes(i) by {
            assert(before.update(1, i) =~= seq![row, i]);
            lemma_size_value(shares, min_size, row, i, m);
        }
        crate::value::lemma_same_sum(k as nat, along, sizes);
        assert(crate::value::number(high.sub_expr(low), m) == way) by {
            reveal_with_fuel(crate::value::number, 2);
        }
    }
}

/// The edges rise from one bound to the other.
pub proof fn lemma_edges_rise(
    shares: Tensor,
    min_size: Real,
    low: Scalar,
    high: Scalar,
    row: int,
    k: int,
    l: int,
    m: Reading,
)
    requires
        bins_fit(shares, min_size, low, high, m),
        0 <= row < shares.at(0),
        0 <= k < l <= shares.at(1),
    ensures
        ({
            let edges = crate::spline::edges_expr(shares, min_size, low, high);
            let bins = shares.at(1) as int;
            &&& edges.shape == Shape::D2(shares.at(0), (bins + 1) as usize)
            &&& crate::value::value(edges, seq![row, 0], m) == crate::value::number(low, m)
            &&& crate::value::value(edges, seq![row, bins], m) == crate::value::number(high, m)
            &&& crate::value::value(edges, seq![row, k], m) < crate::value::value(
                edges,
                seq![row, l],
                m,
            )
        }),
{
    let sizes = |k: int| bin_size(shares, min_size, row, k, m);
    let bins = shares.at(1) as int;
    lemma_bin_sizes(shares, min_size, low, high, row, sizes, m);
    lemma_edge_value(shares, min_size, low, high, row, 0, sizes, m);
    lemma_edge_value(shares, min_size, low, high, row, bins, sizes, m);
    lemma_edge_value(shares, min_size, low, high, row, k, sizes, m);
    lemma_edge_value(shares, min_size, low, high, row, l, sizes, m);
    lemma_growing(k as nat, l as nat, sizes);
    let way = crate::value::number(high, m) - crate::value::number(low, m);
    let (a, b) = (crate::value::sum(k as nat, sizes), crate::value::sum(l as nat, sizes));
    assert(a * way < b * way) by (nonlinear_arith)
        requires
            a < b,
            way > 0real,
    ;
    assert(0real * way == 0real) by (nonlinear_arith);
    assert(1real * way == way) by (nonlinear_arith);
}

/// An input between the bounds falls into one of the bins: the index found for it is that of a
/// bin, whose left edge is not above it, and whose right edge is above it or is the upper bound.
pub proof fn lemma_bin_found(
    shares: Tensor,
    min_size: Real,
    low: Scalar,
    high: Scalar,
    inputs: Tensor,
    row: int,
    m: Reading,
) -> (j: int)
    requires
        bins_fit(shares, min_size, low, high, m),
        inputs.shape == Shape::D1(shares.at(0)),
        0 <= row < shares.at(0),
        crate::value::number(low, m) <= crate::value::value(inputs, seq![row], m)
            <= crate::value::number(high, m),
    ensures
        ({
            let edges = crate::spline::edges_expr(shares, min_size, low, high);
            let found = crate::spline::searchsorted_expr(edges, inputs, EDGE_TOLERANCE);
            let v = crate::value::value(inputs, seq![row], m);
            &&& crate::value::value(found, seq![row], m) == j as real
            &&& 0 <= j < shares.at(1)
            &&& crate::value::value(edges, seq![row, j], m) <= v
            &&& v < crate::value::value(edges, seq![row, j + 1], m) || j + 1 == shares.at(1) && v
                <= crate::value::value(edges, seq![row, j + 1], m)
        }),
{
    let edges = crate::spline::edges_expr(shares, min_size, low, high);
    let bins = shares.at(1) as int;
    lemma_edges_rise(shares, min_size, low, high, row, 0, bins, m);
    crate::number::lemma_positive(EDGE_TOLERANCE);
    assert forall|k: int, l: int| 0 <= k <= l < edges.at(1) implies #[trigger] moved_edge(
        edges,
        EDGE_TOLERANCE,
        row,
        k,
        m,
    ) <= #[trigger] moved_edge(edges, EDGE_TOLERANCE, row, l, m) by {
        if k < l {
            lemma_edges_rise(shares, min_size, low, high, row, k, l, m);
        }
    }
    let j = lemma_last_edge_not_above(edges, inputs, EDGE_TOLERANCE, row, m);
    assert(j >= 0) by {
        if j < 0 {
            assert(moved_edge(edges, EDGE_TOLERANCE, row, 0, m) == crate::value::number(low, m));
        }
    }
    assert(j < bins) by {
        if j >= bins {
            assert(moved_edge(edges, EDGE_TOLERANCE, row, bins, m) > crate::value::number(
                high,
                m,
            ));
        }
    }
    j
}

/// Whether a number lies beyond a bound on either side.
pub open spec fn beyond(v: real, tail_bound: Real) -> bool {
    let bound = crate::number::double(tail_bound.bits);
    v < -bound || v > bound
}

/// Beyond the bound the spline with linear tails is the identity, in both directions, and the
/// logarithm of its slope is zero.
pub proof fn lemma_identity_beyond(
    inputs: Tensor,
    unnormalized_widths: Tensor,
    unnormalized_heights: Tensor,
    unnormalized_derivatives: Tensor,
    inverse: bool,
    bounds: SplineBox,
    tail_bound: Real,
    idx: Seq<int>,
    m: Reading,
)
    requires
        crate::element::within(inputs.shape, idx),
        beyond(crate::value::value(inputs, idx, m), tail_bound),
    ensures
        ({
            let r = crate::spline::unconstrained_expr(
                inputs,
                unnormalized_widths,
                unnormalized_heights,
                unnormalized_derivatives,
                inverse,
                bounds,
                tail_bound,
            );
            &&& r.0.shape == inputs.shape
            &&& r.1.shape == inputs.shape
            &&& crate::value::value(r.0, idx, m) == crate::value::value(inputs, idx, m)
            &&& crate::value::value(r.1, idx, m) == 0real
        }),
{
    let inside = crate::spline::inside_expr(inputs, tail_bound);
    lemma_outside(inputs, tail_bound, idx, m);
    let outside = inside.unary_expr(UnaryOp::Not);
    let zeros = Tensor::zeros_expr(inputs.shape);
    let derivatives = crate::spline::tailed_expr(unnormalized_derivatives, bounds.min_derivative);
    let inside4 = inside.unsqueeze_expr(3);
    let (t_outputs, t_logabsdet) = bounds.spline_expr(
        inputs.mask_where_expr(inside, inputs).squeeze1_expr(),
        unnormalized_widths.mask_where_expr(inside4, unnormalized_widths).squeeze2_expr(),
        unnormalized_heights.mask_where_expr(inside4, unnormalized_heights).squeeze2_expr(),
        derivatives.mask_where_expr(inside4, derivatives).squeeze2_expr(),
        inverse,
    );
    lemma_kept(
        zeros,
        inside,
        outside,
        inputs,
        t_outputs.reshape_expr(inputs.shape),
        t_logabsdet.reshape_expr(inputs.shape),
        idx,
        m,
    );
}

/// Which inputs are found to lie beyond the bound.
proof fn lemma_outside(inputs: Tensor, tail_bound: Real, idx: Seq<int>, m: Reading)
    requires
        beyond(crate::value::value(inputs, idx, m), tail_bound),
    ensures
        ({
            let inside = crate::spline::inside_expr(inputs, tail_bound);
            &&& crate::value::value(inside, idx, m) == 0real
            &&& crate::value::value(inside.unary_expr(UnaryOp::Not), idx, m) == 1real
        }),
{
    broadcast use {crate::value::lemma_scalar_value, crate::value::lemma_unary_value};

    let bound = Scalar::Literal(tail_bound);
    let above = inputs.scalar_expr(ScalarOp::GreaterEqual, bound.neg_expr());
    let below = inputs.scalar_expr(ScalarOp::LowerEqual, bound);
    assert(above.shape == inputs.shape && below.shape == inputs.shape) by {
        reveal(Tensor::scalar_expr);
    }
    crate::value::lemma_binary_value(above, BinaryOp::And, below, idx, m);
    assert(crate::value::number(bound, m) == crate::number::double(tail_bound.bits));
    assert(crate::value::number(bound.neg_expr(), m) == -crate::value::number(bound, m)) by {
        reveal_with_fuel(crate::value::number, 2);
    }
}

/// What is put outside stays when something is put inside.
proof fn lemma_kept(
    zeros: Tensor,
    inside: Tensor,
    outside: Tensor,
    inputs: Tensor,
    t_outputs: Tensor,
    t_logabsdet: Tensor,
    idx: Seq<int>,
    m: Reading,
)
    requires
        zeros == Tensor::zeros_expr(inputs.shape),
        crate::element::within(inputs.shape, idx),
        crate::value::value(inside, idx, m) == 0real,
        crate::value::value(outside, idx, m) == 1real,
    ensures
        ({
            let outputs = zeros.mask_where_expr(outside, inputs).mask_where_expr(inside, t_outputs);
            let logabsdet = zeros.mask_fill_expr(
                outside,
                Scalar::literal_expr(ZERO),
            ).mask_where_expr(inside, t_logabsdet);
            &&& outputs.shape == inputs.shape
            &&& outputs.mask_where_expr(inside, outputs).shape == inputs.shape
            &&& logabsdet.mask_where_expr(inside, logabsdet).shape == inputs.shape
            &&& crate::value::value(outputs.mask_where_expr(inside, outputs), idx, m)
                == crate::value::value(inputs, idx, m)
            &&& crate::value::value(logabsdet.mask_where_expr(inside, logabsdet), idx, m) == 0real
        }),
{
    assert(zeros.shape == inputs.shape) by {
        reveal(Tensor::leaf_expr);
    }
    let zero = Scalar::literal_expr(ZERO);
    let first = zeros.mask_where_expr(outside, inputs);
    let outputs = first.mask_where_expr(inside, t_outputs);
    let second = zeros.mask_fill_expr(outside, zero);
    let logabsdet = second.mask_where_expr(inside, t_logabsdet);
    crate::value::lemma_mask_where_value(zeros, outside, inputs, idx, m);
    crate::value::lemma_mask_where_value(first, inside, t_outputs, idx, m);
    crate::value::lemma_mask_where_value(outputs, inside, outputs, idx, m);
    crate::value::lemma_mask_fill_value(zeros, outside, zero, idx, m);
    crate::value::lemma_mask_where_value(second, inside, t_logabsdet, idx, m);
    crate::value::lemma_mask_where_value(logabsdet, inside, logabsdet, idx, m);
    assert(crate::value::number(zero, m) == 0real) by {
        crate::number::lemma_small_numbers();
    }
}

impl ConvFlow {
    /// In both directions the first channel stays as it is under the mask, and so does what lies
    /// beyond the bound in the second.
    pub proof fn lemma_kept_channels(
        self,
        x: Tensor,
        x_mask: Tensor,
        g: Option<Tensor>,
        reverse: bool,
        idx: Seq<int>,
        m: Reading,
    )
        requires
            self.half_channels == 1,
            x.shape.rank() == 3,
            x.at(1) == 2,
            x_mask.shape.rank() == 3,
            x.shape.joined(x_mask.shape) == x.shape,
            crate::element::within(x.shape, idx),
            idx[1] == 0 || beyond(crate::value::value(x, idx, m), self.tail_bound),
        ensures
            crate::value::value(self.forward_expr(x, x_mask, g, reverse).0, idx, m)
                == crate::value::value(x, idx, m) * crate::value::value(x_mask, idx, m),
    {
        let x0 = x.slice_expr(1, 0, 1);
        let x1 = x.slice_expr(1, 1, 2);
        assert(x0.shape == x.shape.resized(1, 1) && x1.shape == x.shape.resized(1, 1)) by {
            reveal(Tensor::slice_expr);
        }
        let (widths, heights, derivatives) = self.splines_expr(x0, x_mask, g);
        let bounds = crate::spline::symmetric(
            self.tail_bound,
            Real { bits: crate::spline::DEFAULT_MIN_BIN_WIDTH },
            Real { bits: crate::spline::DEFAULT_MIN_BIN_HEIGHT },
            Real { bits: crate::spline::DEFAULT_MIN_DERIVATIVE },
        );
        let y1 = crate::spline::unconstrained_expr(
            x1,
            widths,
            heights,
            derivatives,
            reverse,
            bounds,
            self.tail_bound,
        ).0;
        let both = x0.cat_expr(y1, 1);
        assert(y1.shape == x1.shape) by {
            reveal(Tensor::leaf_expr);
            reveal(Tensor::mask_where_expr);
        }
        assert(both.shape == x.shape) by {
            reveal(Tensor::cat_expr);
        }
        crate::value::lemma_binary_value(both, BinaryOp::Mul, x_mask, idx, m);
        crate::value::lemma_cat_value(x0, y1, 1, idx, m);
        if idx[1] == 0 {
            assert(crate::element::within(x0.shape, idx));
            crate::value::lemma_slice_value(x, 1, 0, 1, idx, m);
            assert(idx.update(1, idx[1] + 0) =~= idx);
        } else {
            let at = idx.update(1, 0);
            assert(crate::element::within(x1.shape, at));
            crate::value::lemma_slice_value(x, 1, 1, 2, at, m);
            assert(at.update(1, at[1] + 1) =~= idx);
            assert(idx.update(1, idx[1] - 1) =~= at);
            lemma_identity_beyond(
                x1,
                widths,
                heights,
                derivatives,
                reverse,
                bounds,
                self.tail_bound,
                at,
                m,
            );
        }
    }
}


/// What the slopes of a spline with linear tails are made of. Between the bins it is what is given;
/// at both ends one more than its exponential is the exponential of what the least slope lacks of
/// one.
pub proof fn lemma_tails(
    slopes: Tensor,
    min_derivative: Real,
    b: int,
    h: int,
    t: int,
    k: int,
    m: Reading,
)
    requires
        m.exponential(),
        m.logarithmic(),
        crate::number::double(min_derivative.bits) < 1real,
        slopes.shape.rank() == 4,
        slopes.at(3) + 2 <= usize::MAX,
        0 <= b < slopes.at(0),
        0 <= h < slopes.at(1),
        0 <= t < slopes.at(2),
        0 <= k < slopes.at(3) + 2,
    ensures
        ({
            let tailed = crate::spline::tailed_expr(slopes, min_derivative);
            let v = crate::signals::at4(tailed, b, h, t, k, m);
            &&& tailed.shape == slopes.shape.resized(3, (slopes.at(3) + 2) as usize)
            &&& if 1 <= k <= slopes.at(3) {
                v == crate::signals::at4(slopes, b, h, t, k - 1, m)
            } else {
                (m.exp)(v) + 1real == (m.exp)(
                    1real - crate::number::double(min_derivative.bits),
                )
            }
        }),
{
    let least = crate::number::double(min_derivative.bits);
    let one = Scalar::literal_expr(ONE);
    let constant = one.sub_expr(Scalar::Literal(min_derivative)).exp_expr().sub_expr(
        one,
    ).ln_expr();
    let padded = slopes.pad_expr(3, 1, 1);
    let shape = slopes.shape.resized(3, (slopes.at(3) + 2) as usize);
    assert(padded.shape == shape) by {
        reveal(Tensor::pad_expr);
    }
    let last = (padded.at(3) - 1) as usize;
    let begun = padded.slice_fill_expr(3, 0, constant);
    let idx = seq![b, h, t, k];
    assert(crate::element::within(shape, idx));
    crate::value::lemma_slice_fill_value(padded, 3, 0, constant, idx, m);
    crate::value::lemma_slice_fill_value(begun, 3, last, constant, idx, m);
    crate::value::lemma_pad_value(slopes, 3, 1, 1, idx, m);
    assert(idx.update(3, k - 1) =~= seq![b, h, t, k - 1]);
    crate::number::lemma_small_numbers();
    let rest = 1real - least;
    assert(crate::value::number(constant, m) == (m.log)((m.exp)(rest) - 1real)) by {
        reveal_with_fuel(crate::value::number, 6);
    }
    let (up, down) = ((m.exp)(rest), (m.exp)(-rest));
    assert(up * down == 1real && down < 1real && up > 0real);
    assert(up > 1real) by (nonlinear_arith)
        requires
            up * down == 1real,
            down < 1real,
            up > 0real,
    ;
}

} // verus!

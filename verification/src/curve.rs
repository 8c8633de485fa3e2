//! What splines do between their bounds: the value of an input, and the input of a value.

use crate::number::{Real, Scalar, FOUR, ONE, TWO};
use crate::shape::Shape;
use crate::spline::{Segment, SplineBox, EDGE_TOLERANCE};
use crate::tensor::{BinaryOp, ScalarOp, Tensor, UnaryOp};
use crate::value::Reading;
use vstd::prelude::*;

verus! {

/// The entry of each row at its index.
proof fn lemma_picked(table: Tensor, found: Tensor, row: int, j: int, m: Reading)
    requires
        table.shape.rank() == 2,
        found.shape == Shape::D1(table.at(0)),
        table.at(0) != 1,
        0 <= row < table.at(0),
        crate::value::value(found, seq![row], m) == j as real,
    ensures
        ({
            let picked = crate::spline::picked_expr(table, found.unsqueeze_expr(1));
            &&& picked.shape == Shape::D1(table.at(0))
            &&& crate::value::value(picked, seq![row], m) == crate::value::value(
                table,
                seq![row, j],
                m,
            )
        }),
{
    let n = table.at(0);
    let ids = found.unsqueeze_expr(1);
    let gathered = table.gather_expr(1, ids);
    let column = gathered.slice_expr(1, 0, 1);
    let at = seq![row, 0];
    assert(ids.shape == Shape::D2(n, 1)) by {
        reveal(Tensor::reshape_expr);
    }
    assert(gathered.shape == ids.shape && column.shape == ids.shape) by {
        reveal(Tensor::gather_expr);
        reveal(Tensor::slice_expr);
    }
    assert(crate::element::flat(ids.shape, at) == row) by {
        vstd::arithmetic::mul::lemma_mul_basics(row);
    }
    crate::value::lemma_reshape_value(found, ids.shape, at, seq![row], m);
    crate::value::lemma_gather_value(table, 1, ids, at, m);
    assert((j as real).floor() == j);
    assert(at.update(1, j) =~= seq![row, j]);
    crate::value::lemma_slice_value(gathered, 1, 0, 1, at, m);
    assert(at.update(1, at[1] + 0) =~= at);
    assert(column.shape.sizes_beyond_one() =~= seq![n]);
    crate::value::lemma_reshape_value(column, Shape::D1(n), seq![row], at, m);
}

/// The size of a bin is the distance of its edges.
proof fn lemma_size(edges: Tensor, row: int, k: int, m: Reading)
    requires
        edges.shape.rank() == 2,
        edges.at(1) >= 2,
        0 <= row < edges.at(0),
        0 <= k < edges.at(1) - 1,
    ensures
        ({
            let sizes = crate::spline::sizes_expr(edges);
            &&& sizes.shape == Shape::D2(edges.at(0), (edges.at(1) - 1) as usize)
            &&& crate::value::value(sizes, seq![row, k], m) == crate::value::value(
                edges,
                seq![row, k + 1],
                m,
            ) - crate::value::value(edges, seq![row, k], m)
        }),
{
    let n = edges.at(1);
    let later = edges.slice_expr(1, 1, n);
    let earlier = edges.slice_expr(1, 0, (n - 1) as usize);
    let at = seq![row, k];
    assert(later.shape == Shape::D2(edges.at(0), (n - 1) as usize) && earlier.shape == later.shape
        && later.minus_expr(earlier).shape == later.shape) by {
        reveal(Tensor::slice_expr);
        reveal(Tensor::binary_expr);
    }
    crate::value::lemma_binary_value(later, BinaryOp::Sub, earlier, at, m);
    crate::value::lemma_slice_value(edges, 1, 1, n, at, m);
    crate::value::lemma_slice_value(edges, 1, 0, (n - 1) as usize, at, m);
    assert(at.update(1, at[1] + 1) =~= seq![row, k + 1]);
    assert(at.update(1, at[1] + 0) =~= at);
}

/// The slope at an edge of a row.
pub open spec fn slope_at(
    slopes: Tensor,
    min_derivative: Real,
    row: int,
    k: int,
    m: Reading,
) -> real {
    (m.log)((m.exp)(crate::value::value(slopes, seq![row, k], m)) + 1real) + crate::number::double(
        min_derivative.bits,
    )
}

/// Slopes are positive.
proof fn lemma_slope_positive(slopes: Tensor, min_derivative: Real, row: int, k: int, m: Reading)
    requires
        m.exponential(),
        m.logarithmic(),
        crate::number::double(min_derivative.bits) >= 0real,
    ensures
        slope_at(slopes, min_derivative, row, k, m) > 0real,
{
    let a = (m.exp)(crate::value::value(slopes, seq![row, k], m)) + 1real;
    assert((m.exp)((m.log)(a)) == a);
}

/// The slopes as the recipe has them.
proof fn lemma_slope_values(slopes: Tensor, min_derivative: Real, row: int, k: int, m: Reading)
    requires
        slopes.shape.rank() == 2,
        0 <= row < slopes.at(0),
        0 <= k < slopes.at(1) - 1,
    ensures
        ({
            let made = slopes.unary_expr(UnaryOp::Softplus).scalar_expr(
                ScalarOp::Add,
                Scalar::Literal(min_derivative),
            );
            let next = made.slice_expr(1, 1, made.at(1));
            &&& made.shape == slopes.shape
            &&& next.shape == Shape::D2(slopes.at(0), (slopes.at(1) - 1) as usize)
            &&& crate::value::value(made, seq![row, k], m) == slope_at(
                slopes,
                min_derivative,
                row,
                k,
                m,
            )
            &&& crate::value::value(next, seq![row, k], m) == slope_at(
                slopes,
                min_derivative,
                row,
                k + 1,
                m,
            )
        }),
{
    broadcast use {crate::value::lemma_scalar_value, crate::value::lemma_unary_value};

    let made = slopes.unary_expr(UnaryOp::Softplus).scalar_expr(
        ScalarOp::Add,
        Scalar::Literal(min_derivative),
    );
    let next = made.slice_expr(1, 1, made.at(1));
    assert(made.shape == slopes.shape) by {
        reveal(Tensor::unary_expr);
        reveal(Tensor::scalar_expr);
    }
    assert(next.shape == Shape::D2(slopes.at(0), (slopes.at(1) - 1) as usize)) by {
        reveal(Tensor::slice_expr);
    }
    let at = seq![row, k];
    crate::value::lemma_slice_value(made, 1, 1, made.at(1), at, m);
    assert(at.update(1, at[1] + 1) =~= seq![row, k + 1]);
}

impl SplineBox {
    /// Whether splines with these bounds are given for rows of inputs.
    pub open spec fn fits(
        self,
        rows: usize,
        widths: Tensor,
        heights: Tensor,
        slopes: Tensor,
        m: Reading,
    ) -> bool {
        &&& m.logarithmic()
        &&& m.rooted()
        &&& rows != 1
        &&& crate::knots::bins_fit(widths, self.min_bin_width, self.left, self.right, m)
        &&& crate::knots::bins_fit(heights, self.min_bin_height, self.bottom, self.top, m)
        &&& widths.shape == Shape::D2(rows, widths.at(1))
        &&& heights.shape == widths.shape
        &&& slopes.shape == Shape::D2(rows, slopes.at(1))
        &&& slopes.at(1) >= widths.at(1) + 1
        &&& crate::number::double(self.min_derivative.bits) >= 0real
    }

    /// The edges of the bins from left to right, and from bottom to top.
    pub open spec fn across(self, widths: Tensor) -> Tensor {
        crate::spline::edges_expr(widths, self.min_bin_width, self.left, self.right)
    }

    pub open spec fn upward(self, heights: Tensor) -> Tensor {
        crate::spline::edges_expr(heights, self.min_bin_height, self.bottom, self.top)
    }

    /// The parts of the segment that an input falls into, where its bin is known.
    proof fn lemma_segment(
        self,
        inputs: Tensor,
        widths: Tensor,
        heights: Tensor,
        slopes: Tensor,
        inverse: bool,
        row: int,
        j: int,
        m: Reading,
    )
        requires
            self.fits(inputs.at(0), widths, heights, slopes, m),
            inputs.shape.rank() == 1,
            0 <= row < inputs.at(0),
            0 <= j < widths.at(1),
            ({
                let edges = if inverse {
                    self.upward(heights)
                } else {
                    self.across(widths)
                };
                crate::value::value(
                    crate::spline::searchsorted_expr(edges, inputs, EDGE_TOLERANCE),
                    seq![row],
                    m,
                ) == j as real
            }),
        ensures
            ({
                let g = self.segment_expr(inputs, widths, heights, slopes, inverse);
                let at = seq![row];
                let (w, h) = (self.across(widths), self.upward(heights));
                let (here, there) = (seq![row, j], seq![row, j + 1]);
                let wide = crate::value::value(w, there, m) - crate::value::value(w, here, m);
                let high = crate::value::value(h, there, m) - crate::value::value(h, here, m);
                &&& g.in_line(inputs.at(0))
                &&& crate::value::value(g.cumwidths, at, m) == crate::value::value(w, here, m)
                &&& crate::value::value(g.bin_widths, at, m) == wide
                &&& crate::value::value(g.cumheights, at, m) == crate::value::value(h, here, m)
                &&& crate::value::value(g.heights, at, m) == high
                &&& crate::value::value(g.delta, at, m) == high / wide
                &&& crate::value::value(g.derivatives, at, m) == slope_at(
                    slopes,
                    self.min_derivative,
                    row,
                    j,
                    m,
                )
                &&& crate::value::value(g.derivatives_plus_one, at, m) == slope_at(
                    slopes,
                    self.min_derivative,
                    row,
                    j + 1,
                    m,
                )
            }),
    {
        let n = inputs.at(0);
        let bins = widths.at(1) as int;
        let (w, h) = (self.across(widths), self.upward(heights));
        crate::knots::lemma_edges_rise(
            widths,
            self.min_bin_width,
            self.left,
            self.right,
            row,
            0,
            bins,
            m,
        );
        crate::knots::lemma_edges_rise(
            heights,
            self.min_bin_height,
            self.bottom,
            self.top,
            row,
            0,
            bins,
            m,
        );
        let edges = if inverse {
            h
        } else {
            w
        };
        let found = crate::spline::searchsorted_expr(edges, inputs, EDGE_TOLERANCE);
        lemma_found_shape(edges, inputs, EDGE_TOLERANCE);
        lemma_size(w, row, j, m);
        lemma_size(h, row, j, m);
        lemma_slope_values(slopes, self.min_derivative, row, j, m);
        let (wide, high) = (crate::spline::sizes_expr(w), crate::spline::sizes_expr(h));
        let made = slopes.unary_expr(UnaryOp::Softplus).scalar_expr(
            ScalarOp::Add,
            Scalar::Literal(self.min_derivative),
        );
        let steep = high.over_expr(wide);
        assert(steep.shape == wide.shape) by {
            reveal(Tensor::binary_expr);
        }
        crate::value::lemma_binary_value(high, BinaryOp::Div, wide, seq![row, j], m);
        lemma_picked(w, found, row, j, m);
        lemma_picked(wide, found, row, j, m);
        lemma_picked(h, found, row, j, m);
        lemma_picked(high, found, row, j, m);
        lemma_picked(steep, found, row, j, m);
        lemma_picked(made, found, row, j, m);
        lemma_picked(made.slice_expr(1, 1, made.at(1)), found, row, j, m);
    }
}

/// There is an index for each input.
proof fn lemma_found_shape(edges: Tensor, inputs: Tensor, eps: u64)
    requires
        inputs.shape.rank() == 1,
        edges.shape == Shape::D2(inputs.at(0), edges.at(1)),
    ensures
        crate::spline::searchsorted_expr(edges, inputs, eps).shape == inputs.shape,
{
    reveal(Tensor::reshape_expr);
    reveal(Tensor::binary_expr);
    reveal(Tensor::unary_expr);
    reveal(Tensor::scalar_expr);
    reveal(Tensor::sum_dim_expr);
    reveal(Tensor::slice_assign_expr);
}

impl Segment {
    /// Whether every part is a row of `n` numbers.
    pub open spec fn in_line(self, n: usize) -> bool {
        let shape = Shape::D1(n);
        &&& self.cumwidths.shape == shape
        &&& self.bin_widths.shape == shape
        &&& self.cumheights.shape == shape
        &&& self.heights.shape == shape
        &&& self.delta.shape == shape
        &&& self.derivatives.shape == shape
        &&& self.derivatives_plus_one.shape == shape
    }
}

/// A number times a scalar.
proof fn lemma_times(x: real, s: real, c: real)
    requires
        s == c,
    ensures
        x * s == x * c,
{
}

impl Segment {
    /// The height at a fraction of the bin.
    proof fn lemma_height(self, theta: Tensor, n: usize, at: Seq<int>, m: Reading)
        requires
            self.in_line(n),
            theta.shape == Shape::D1(n),
        ensures
            self.value_expr(theta).shape == Shape::D1(n),
            crate::value::value(self.value_expr(theta), at, m) == crate::value::value(
                self.cumheights,
                at,
                m,
            ) + crate::quotients::rise(
                crate::value::value(self.heights, at, m),
                crate::value::value(self.delta, at, m),
                crate::value::value(self.derivatives, at, m),
                crate::value::value(self.derivatives_plus_one, at, m),
                crate::value::value(theta, at, m),
            ),
    {
        broadcast use crate::value::group_elementwise;

        let (one, two) = (Scalar::literal_expr(ONE), Scalar::literal_expr(TWO));
        let rest = theta.scalar_expr(ScalarOp::SubFrom, one);
        let product = theta.times_expr(rest);
        let square = theta.scalar_expr(ScalarOp::Powi, two);
        let excess = self.excess_expr();
        let doubled = self.delta.scalar_expr(ScalarOp::Mul, two);
        let ends = self.derivatives.plus_expr(self.derivatives_plus_one);
        let steep = self.delta.times_expr(square);
        let start = self.derivatives.times_expr(product);
        let inner = steep.plus_expr(start);
        let numerator = self.heights.times_expr(inner);
        let bent = excess.times_expr(product);
        let denominator = self.denominator_expr(product);
        let quotient = numerator.over_expr(denominator);
        assert(rest.shape == theta.shape && product.shape == theta.shape && square.shape
            == theta.shape && doubled.shape == theta.shape && ends.shape == theta.shape
            && excess.shape == theta.shape && steep.shape == theta.shape && start.shape
            == theta.shape && inner.shape == theta.shape && numerator.shape == theta.shape
            && bent.shape == theta.shape && denominator.shape == theta.shape && quotient.shape
            == theta.shape && self.value_expr(theta).shape == theta.shape) by {
            reveal(Tensor::scalar_expr);
            reveal(Tensor::binary_expr);
        }
        let h = crate::value::value(self.heights, at, m);
        let s = crate::value::value(self.delta, at, m);
        let a = crate::value::value(self.derivatives, at, m);
        let b = crate::value::value(self.derivatives_plus_one, at, m);
        let t = crate::value::value(theta, at, m);
        assert(crate::value::number(one, m) == 1real && crate::value::number(two, m) == 2real) by {
            crate::number::lemma_small_numbers();
        }
        assert(crate::value::value(product, at, m) == t * (1real - t));
        assert(crate::value::value(square, at, m) == t * t);
        lemma_times(s, crate::value::number(two, m), 2real);
        assert(crate::value::value(excess, at, m) == a + b - s * 2real);
        crate::quotients::lemma_rise_written(h, s, a, b, t);
    }

    /// The fraction of the bin at which there is a height.
    proof fn lemma_fraction(self, inputs: Tensor, n: usize, at: Seq<int>, m: Reading)
        requires
            self.in_line(n),
            inputs.shape == Shape::D1(n),
        ensures
            self.root_expr(inputs).shape == Shape::D1(n),
            ({
                let y = crate::value::value(inputs, at, m) - crate::value::value(
                    self.cumheights,
                    at,
                    m,
                );
                let h = crate::value::value(self.heights, at, m);
                let s = crate::value::value(self.delta, at, m);
                let a = crate::value::value(self.derivatives, at, m);
                let b = crate::value::value(self.derivatives_plus_one, at, m);
                let whole = crate::quotients::discriminant(h, s, a, b, y);
                &&& crate::value::value(self.root_expr(inputs), at, m) == (2real
                    * crate::quotients::third(s, y)) / (-crate::quotients::second(h, s, a, b, y) - (
                m.sqrt)(whole))
                &&& crate::value::value(self.defined_expr(inputs), at, m) == crate::value::truth(
                    whole >= 0real,
                )
            }),
    {
        broadcast use crate::value::group_elementwise;

        let (two, four) = (Scalar::literal_expr(TWO), Scalar::literal_expr(FOUR));
        let shape = inputs.shape;
        let above = inputs.minus_expr(self.cumheights);
        let doubled = self.delta.scalar_expr(ScalarOp::Mul, two);
        let ends = self.derivatives.plus_expr(self.derivatives_plus_one);
        let excess = self.excess_expr();
        let bent = above.times_expr(excess);
        let gap = self.delta.minus_expr(self.derivatives);
        let raised = self.heights.times_expr(gap);
        let first = bent.plus_expr(raised);
        let start = self.heights.times_expr(self.derivatives);
        let second = start.minus_expr(bent);
        let negative = self.delta.unary_expr(UnaryOp::Neg);
        let third = negative.times_expr(above);
        let square = second.scalar_expr(ScalarOp::Powi, two);
        let fourfold = first.scalar_expr(ScalarOp::Mul, four);
        let crossed = fourfold.times_expr(third);
        let plain = square.minus_expr(crossed);
        let condition = plain.scalar_expr(ScalarOp::GreaterEqual, Scalar::literal_expr(0));
        let whole = plain.guard_expr(condition);
        let root = whole.unary_expr(UnaryOp::Sqrt);
        let opposite = second.unary_expr(UnaryOp::Neg);
        let below = opposite.minus_expr(root);
        let twofold = third.scalar_expr(ScalarOp::Mul, two);
        assert(above.shape == shape && doubled.shape == shape && ends.shape == shape && excess.shape
            == shape && bent.shape == shape && gap.shape == shape && raised.shape == shape
            && first.shape == shape && start.shape == shape && second.shape == shape
            && negative.shape == shape && third.shape == shape && square.shape == shape
            && fourfold.shape == shape && crossed.shape == shape && plain.shape == shape
            && whole.shape == shape && root.shape == shape && opposite.shape == shape && below.shape
            == shape && twofold.shape == shape && self.root_expr(inputs).shape == shape) by {
            reveal(Tensor::scalar_expr);
            reveal(Tensor::binary_expr);
            reveal(Tensor::unary_expr);
            reveal(Tensor::guard_expr);
        }
        let y = crate::value::value(inputs, at, m) - crate::value::value(self.cumheights, at, m);
        let h = crate::value::value(self.heights, at, m);
        let s = crate::value::value(self.delta, at, m);
        let a = crate::value::value(self.derivatives, at, m);
        let b = crate::value::value(self.derivatives_plus_one, at, m);
        assert(crate::value::number(two, m) == 2real && crate::value::number(four, m) == 4real
            && crate::value::number(Scalar::literal_expr(0), m) == 0real) by {
            crate::number::lemma_small_numbers();
        }
        lemma_times(s, crate::value::number(two, m), 2real);
        assert(crate::value::value(excess, at, m) == a + b - s * 2real);
        let i = y * (a + b - s * 2real) + h * (s - a);
        let j = h * a - y * (a + b - s * 2real);
        let k = -s * y;
        assert(crate::value::value(first, at, m) == i);
        assert(crate::value::value(second, at, m) == j);
        assert(crate::value::value(third, at, m) == k);
        assert(crate::value::value(square, at, m) == j * j);
        lemma_times(i, crate::value::number(four, m), 4real);
        assert(crate::value::value(crossed, at, m) == i * 4real * k);
        crate::value::lemma_guard_value(plain, condition, at, m);
        lemma_times(k, crate::value::number(two, m), 2real);
        crate::quotients::lemma_root_written(h, s, a, b, y);
    }
}

/// How far a number is on the way from one number to another.
proof fn lemma_way(v: real, low: real, high: real)
    requires
        low <= v <= high,
        low < high,
    ensures
        ({
            let t = (v - low) / (high - low);
            &&& 0real <= t <= 1real
            &&& v < high ==> t < 1real
            &&& v == high ==> t == 1real
            &&& v == low ==> t == 0real
            &&& t * (high - low) + low == v
        }),
{
    let (x, d) = (v - low, high - low);
    let t = x / d;
    assert((x / d) * d == x) by (nonlinear_arith)
        requires
            d > 0real,
    ;
    assert(x / d >= 0real) by (nonlinear_arith)
        requires
            x >= 0real,
            d > 0real,
    ;
    if x < d {
        assert(x / d < 1real) by (nonlinear_arith)
            requires
                x < d,
                d > 0real,
        ;
    } else {
        assert(d / d == 1real) by (nonlinear_arith)
            requires
                d > 0real,
        ;
    }
    if x == 0real {
        assert(0real / d == 0real) by (nonlinear_arith)
            requires
                d > 0real,
        ;
    }
}

impl SplineBox {
    /// The positive numbers that a bin of a row is made of: its width, its height, its mean slope
    /// and the slopes at its ends.
    pub open spec fn bin(
        self,
        widths: Tensor,
        heights: Tensor,
        slopes: Tensor,
        row: int,
        j: int,
        m: Reading,
    ) -> (real, real, real, real, real) {
        let (w, h) = (self.across(widths), self.upward(heights));
        let (here, there) = (seq![row, j], seq![row, j + 1]);
        let wide = crate::value::value(w, there, m) - crate::value::value(w, here, m);
        let high = crate::value::value(h, there, m) - crate::value::value(h, here, m);
        (
            wide,
            high,
            high / wide,
            slope_at(slopes, self.min_derivative, row, j, m),
            slope_at(slopes, self.min_derivative, row, j + 1, m),
        )
    }

    proof fn lemma_bin(
        self,
        rows: usize,
        widths: Tensor,
        heights: Tensor,
        slopes: Tensor,
        row: int,
        j: int,
        m: Reading,
    )
        requires
            self.fits(rows, widths, heights, slopes, m),
            0 <= row < rows,
            0 <= j < widths.at(1),
        ensures
            ({
                let (wide, high, s, a, b) = self.bin(widths, heights, slopes, row, j, m);
                wide > 0real && high > 0real && s > 0real && a > 0real && b > 0real
            }),
    {
        let (wide, high, s, a, b) = self.bin(widths, heights, slopes, row, j, m);
        crate::knots::lemma_edges_rise(
            widths,
            self.min_bin_width,
            self.left,
            self.right,
            row,
            j,
            j + 1,
            m,
        );
        crate::knots::lemma_edges_rise(
            heights,
            self.min_bin_height,
            self.bottom,
            self.top,
            row,
            j,
            j + 1,
            m,
        );
        assert(high / wide > 0real) by (nonlinear_arith)
            requires
                high > 0real,
                wide > 0real,
        ;
        lemma_slope_positive(slopes, self.min_derivative, row, j, m);
        lemma_slope_positive(slopes, self.min_derivative, row, j + 1, m);
    }

    /// The value of a spline at an input between its bounds, by the bin that the input falls into.
    pub proof fn lemma_forward(
        self,
        inputs: Tensor,
        widths: Tensor,
        heights: Tensor,
        slopes: Tensor,
        row: int,
        m: Reading,
    ) -> (j: int)
        requires
            self.fits(inputs.at(0), widths, heights, slopes, m),
            inputs.shape.rank() == 1,
            0 <= row < inputs.at(0),
            crate::value::number(self.left, m) <= crate::value::value(inputs, seq![row], m)
                <= crate::value::number(self.right, m),
        ensures
            ({
                let y = self.spline_expr(inputs, widths, heights, slopes, false).0;
                let (w, h) = (self.across(widths), self.upward(heights));
                let v = crate::value::value(inputs, seq![row], m);
                let low = crate::value::value(w, seq![row, j], m);
                let (wide, high, s, a, b) = self.bin(widths, heights, slopes, row, j, m);
                &&& y.shape == inputs.shape
                &&& 0 <= j < widths.at(1)
                &&& low <= v
                &&& v < low + wide || j + 1 == widths.at(1) && v <= low + wide
                &&& crate::value::value(y, seq![row], m) == crate::value::value(h, seq![row, j], m)
                    + crate::quotients::rise(high, s, a, b, (v - low) / wide)
            }),
    {
        let j = crate::knots::lemma_bin_found(
            widths,
            self.min_bin_width,
            self.left,
            self.right,
            inputs,
            row,
            m,
        );
        self.lemma_segment(inputs, widths, heights, slopes, false, row, j, m);
        let g = self.segment_expr(inputs, widths, heights, slopes, false);
        let at = seq![row];
        let away = inputs.minus_expr(g.cumwidths);
        let theta = away.over_expr(g.bin_widths);
        assert(away.shape == inputs.shape && theta.shape == inputs.shape) by {
            reveal(Tensor::binary_expr);
        }
        crate::value::lemma_binary_value(inputs, BinaryOp::Sub, g.cumwidths, at, m);
        crate::value::lemma_binary_value(away, BinaryOp::Div, g.bin_widths, at, m);
        g.lemma_height(theta, inputs.at(0), at, m);
        j
    }

    /// The spline keeps the ends: the left bound has the value at the bottom, the right bound that
    /// at the top.
    pub proof fn lemma_ends(
        self,
        inputs: Tensor,
        widths: Tensor,
        heights: Tensor,
        slopes: Tensor,
        row: int,
        m: Reading,
    )
        requires
            self.fits(inputs.at(0), widths, heights, slopes, m),
            inputs.shape.rank() == 1,
            0 <= row < inputs.at(0),
            crate::value::number(self.left, m) <= crate::value::value(inputs, seq![row], m)
                <= crate::value::number(self.right, m),
        ensures
            ({
                let y = self.spline_expr(inputs, widths, heights, slopes, false).0;
                let v = crate::value::value(inputs, seq![row], m);
                let r = crate::value::value(y, seq![row], m);
                &&& crate::value::number(self.bottom, m) <= r <= crate::value::number(self.top, m)
                &&& v == crate::value::number(self.left, m) ==> r == crate::value::number(
                    self.bottom,
                    m,
                )
                &&& v == crate::value::number(self.right, m) ==> r == crate::value::number(
                    self.top,
                    m,
                )
            }),
    {
        let bins = widths.at(1) as int;
        let j = self.lemma_forward(inputs, widths, heights, slopes, row, m);
        self.lemma_bin(inputs.at(0), widths, heights, slopes, row, j, m);
        let (wide, high, s, a, b) = self.bin(widths, heights, slopes, row, j, m);
        let v = crate::value::value(inputs, seq![row], m);
        let low = crate::value::value(self.across(widths), seq![row, j], m);
        lemma_way(v, low, low + wide);
        let t = (v - low) / wide;
        crate::quotients::lemma_rise(high, s, a, b, t);
        self.lemma_outer(inputs.at(0), widths, heights, slopes, row, j, m);
    }

    /// The edges of a bin lie between the bounds, and only the outermost are the bounds.
    proof fn lemma_outer(
        self,
        rows: usize,
        widths: Tensor,
        heights: Tensor,
        slopes: Tensor,
        row: int,
        j: int,
        m: Reading,
    )
        requires
            self.fits(rows, widths, heights, slopes, m),
            0 <= row < rows,
            0 <= j < widths.at(1),
        ensures
            ({
                let (w, h) = (self.across(widths), self.upward(heights));
                let bins = widths.at(1);
                let (here, there) = (seq![row, j], seq![row, j + 1]);
                let (left, right) = (
                    crate::value::number(self.left, m),
                    crate::value::number(self.right, m),
                );
                let (bottom, top) = (
                    crate::value::number(self.bottom, m),
                    crate::value::number(self.top, m),
                );
                &&& if j == 0 {
                    crate::value::value(w, here, m) == left && crate::value::value(h, here, m)
                        == bottom
                } else {
                    crate::value::value(w, here, m) > left && crate::value::value(h, here, m)
                        > bottom
                }
                &&& if j + 1 == bins {
                    crate::value::value(w, there, m) == right && crate::value::value(h, there, m)
                        == top
                } else {
                    crate::value::value(w, there, m) < right && crate::value::value(h, there, m)
                        < top
                }
            }),
    {
        let bins = widths.at(1) as int;
        let (low, high) = (if j == 0 {
            bins
        } else {
            j
        }, if j + 1 == bins {
            0
        } else {
            j + 1
        });
        crate::knots::lemma_edges_rise(
            widths,
            self.min_bin_width,
            self.left,
            self.right,
            row,
            0,
            low,
            m,
        );
        crate::knots::lemma_edges_rise(
            heights,
            self.min_bin_height,
            self.bottom,
            self.top,
            row,
            0,
            low,
            m,
        );
        crate::knots::lemma_edges_rise(
            widths,
            self.min_bin_width,
            self.left,
            self.right,
            row,
            high,
            bins,
            m,
        );
        crate::knots::lemma_edges_rise(
            heights,
            self.min_bin_height,
            self.bottom,
            self.top,
            row,
            high,
            bins,
            m,
        );
    }

    /// The spline rises: of two inputs between the bounds the greater one has the greater value.
    pub proof fn lemma_rises(
        self,
        inputs: Tensor,
        others: Tensor,
        widths: Tensor,
        heights: Tensor,
        slopes: Tensor,
        row: int,
        m: Reading,
    )
        requires
            self.fits(inputs.at(0), widths, heights, slopes, m),
            inputs.shape.rank() == 1,
            others.shape == inputs.shape,
            0 <= row < inputs.at(0),
            crate::value::number(self.left, m) <= crate::value::value(inputs, seq![row], m),
            crate::value::value(inputs, seq![row], m) < crate::value::value(others, seq![row], m),
            crate::value::value(others, seq![row], m) <= crate::value::number(self.right, m),
        ensures
            crate::value::value(
                self.spline_expr(inputs, widths, heights, slopes, false).0,
                seq![row],
                m,
            ) < crate::value::value(
                self.spline_expr(others, widths, heights, slopes, false).0,
                seq![row],
                m,
            ),
    {
        let n = inputs.at(0);
        let w = self.across(widths);
        let v = crate::value::value(inputs, seq![row], m);
        let u = crate::value::value(others, seq![row], m);
        let j = self.lemma_forward(inputs, widths, heights, slopes, row, m);
        let k = self.lemma_forward(others, widths, heights, slopes, row, m);
        self.lemma_bin(n, widths, heights, slopes, row, j, m);
        self.lemma_bin(n, widths, heights, slopes, row, k, m);
        let (wide, high, s, a, b) = self.bin(widths, heights, slopes, row, j, m);
        let (wide_, high_, s_, a_, b_) = self.bin(widths, heights, slopes, row, k, m);
        let low = crate::value::value(w, seq![row, j], m);
        let low_ = crate::value::value(w, seq![row, k], m);
        lemma_way(v, low, low + wide);
        lemma_way(u, low_, low_ + wide_);
        let (t, t_) = ((v - low) / wide, (u - low_) / wide_);
        crate::quotients::lemma_rise(high, s, a, b, t);
        crate::quotients::lemma_rise(high_, s_, a_, b_, t_);
        if j == k {
            let (x, y) = (v - low, u - low);
            assert(x / wide < y / wide) by (nonlinear_arith)
                requires
                    x < y,
                    wide > 0real,
            ;
            crate::quotients::lemma_rises(high, s, a, b, t, t_);
        } else if j < k {
            if j + 1 < k {
                crate::knots::lemma_edges_rise(
                    heights,
                    self.min_bin_height,
                    self.bottom,
                    self.top,
                    row,
                    j + 1,
                    k,
                    m,
                );
            }
        } else if k + 1 < j {
            crate::knots::lemma_edges_rise(
                widths,
                self.min_bin_width,
                self.left,
                self.right,
                row,
                k + 1,
                j,
                m,
            );
        }
    }

    /// The inverse undoes the spline: an input between the bounds is found again from its value,
    /// and the discriminant that is guarded on the way is not negative.
    pub proof fn lemma_undone(
        self,
        inputs: Tensor,
        outputs: Tensor,
        widths: Tensor,
        heights: Tensor,
        slopes: Tensor,
        row: int,
        m: Reading,
    )
        requires
            self.fits(inputs.at(0), widths, heights, slopes, m),
            inputs.shape.rank() == 1,
            0 <= row < inputs.at(0),
            crate::value::number(self.left, m) <= crate::value::value(inputs, seq![row], m)
                <= crate::value::number(self.right, m),
            outputs.shape == inputs.shape,
            crate::value::value(outputs, seq![row], m) == crate::value::value(
                self.spline_expr(inputs, widths, heights, slopes, false).0,
                seq![row],
                m,
            ),
        ensures
            self.spline_expr(outputs, widths, heights, slopes, true).0.shape == inputs.shape,
            crate::value::value(
                self.spline_expr(outputs, widths, heights, slopes, true).0,
                seq![row],
                m,
            ) == crate::value::value(inputs, seq![row], m),
            crate::value::value(
                self.segment_expr(outputs, widths, heights, slopes, true).defined_expr(outputs),
                seq![row],
                m,
            ) == 1real,
    {
        let n = inputs.at(0);
        let at = seq![row];
        let (w, h) = (self.across(widths), self.upward(heights));
        let v = crate::value::value(inputs, at, m);
        let r = crate::value::value(outputs, at, m);
        let j = self.lemma_forward(inputs, widths, heights, slopes, row, m);
        self.lemma_ends(inputs, widths, heights, slopes, row, m);
        self.lemma_bin(n, widths, heights, slopes, row, j, m);
        let (wide, high, s, a, b) = self.bin(widths, heights, slopes, row, j, m);
        let low = crate::value::value(w, seq![row, j], m);
        lemma_way(v, low, low + wide);
        let t = (v - low) / wide;
        crate::quotients::lemma_rise(high, s, a, b, t);
        let k = crate::knots::lemma_bin_found(
            heights,
            self.min_bin_height,
            self.bottom,
            self.top,
            outputs,
            row,
            m,
        );
        assert(k == j) by {
            if k > j {
                if k > j + 1 {
                    crate::knots::lemma_edges_rise(
                        heights,
                        self.min_bin_height,
                        self.bottom,
                        self.top,
                        row,
                        j + 1,
                        k,
                        m,
                    );
                }
            } else if k < j {
                if k + 1 < j {
                    crate::knots::lemma_edges_rise(
                        heights,
                        self.min_bin_height,
                        self.bottom,
                        self.top,
                        row,
                        k + 1,
                        j,
                        m,
                    );
                }
            }
        }
        self.lemma_segment(outputs, widths, heights, slopes, true, row, j, m);
        let g = self.segment_expr(outputs, widths, heights, slopes, true);
        g.lemma_fraction(outputs, n, at, m);
        let root = (m.sqrt)(crate::quotients::discriminant(high, s, a, b, r - crate::value::value(
            h,
            seq![row, j],
            m,
        )));
        reveal(crate::quotients::product);
        crate::quotients::lemma_found(high, s, a, b, t, root);
        let fraction = g.root_expr(outputs);
        let scaled = fraction.times_expr(g.bin_widths);
        assert(scaled.shape == inputs.shape && scaled.plus_expr(g.cumwidths).shape == inputs.shape)
            by {
            reveal(Tensor::binary_expr);
        }
        crate::value::lemma_binary_value(fraction, BinaryOp::Mul, g.bin_widths, at, m);
        crate::value::lemma_binary_value(scaled, BinaryOp::Add, g.cumwidths, at, m);
    }

    /// Whether an input lies between the bounds.
    pub open spec fn between(self, inputs: Tensor, row: int, m: Reading) -> bool {
        crate::value::number(self.left, m) <= crate::value::value(inputs, seq![row], m)
            <= crate::value::number(self.right, m)
    }

    /// Whether an input, sent through the spline and then through its inverse, comes back, and the
    /// guard on the way holds.
    pub open spec fn comes_back(
        self,
        inputs: Tensor,
        widths: Tensor,
        heights: Tensor,
        slopes: Tensor,
        row: int,
        m: Reading,
    ) -> bool {
        let there = self.spline_expr(inputs, widths, heights, slopes, false).0;
        let segment = self.segment_expr(there, widths, heights, slopes, true);
        let back = self.spline_expr(there, widths, heights, slopes, true).0;
        &&& crate::value::value(segment.defined_expr(there), seq![row], m) == 1real
        &&& crate::value::value(back, seq![row], m) == crate::value::value(inputs, seq![row], m)
    }

    /// Inputs between the bounds come back when they are sent through the splines and then through
    /// their inverses, and the guard on the way holds at every row.
    pub proof fn lemma_round_trip(
        self,
        inputs: Tensor,
        widths: Tensor,
        heights: Tensor,
        slopes: Tensor,
        m: Reading,
    )
        requires
            self.fits(inputs.at(0), widths, heights, slopes, m),
            inputs.shape.rank() == 1,
            forall|row: int| 0 <= row < inputs.at(0) ==> #[trigger] self.between(inputs, row, m),
        ensures
            forall|row: int|
                0 <= row < inputs.at(0) ==> #[trigger] self.comes_back(
                    inputs,
                    widths,
                    heights,
                    slopes,
                    row,
                    m,
                ),
    {
        let there = self.spline_expr(inputs, widths, heights, slopes, false).0;
        assert forall|row: int| 0 <= row < inputs.at(0) implies #[trigger] self.comes_back(
            inputs,
            widths,
            heights,
            slopes,
            row,
            m,
        ) by {
            assert(self.between(inputs, row, m));
            let j = self.lemma_forward(inputs, widths, heights, slopes, row, m);
            self.lemma_undone(inputs, there, widths, heights, slopes, row, m);
        }
    }
}

} // verus!

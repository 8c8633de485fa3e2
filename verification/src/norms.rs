//! What the weights of weight-normalised convolutions are.

use crate::conv::{WNConv2d, NORM_FLOOR_2D};
use crate::number::{Scalar, TWO};
use crate::param::Param;
use crate::shape::Shape;
use crate::tensor::{ScalarOp, Tensor, UnaryOp};
use crate::value::Reading;
use vstd::prelude::*;

verus! {

/// The sum of the squares of a whole filter.
pub open spec fn squares(v: Tensor, filter: int, m: Reading) -> real {
    crate::value::sum(
        v.at(3) as nat,
        |j: int|
            crate::value::sum(
                v.at(2) as nat,
                |i: int|
                    crate::value::sum(
                        v.at(1) as nat,
                        |c: int|
                            crate::value::value(v, seq![filter, c, i, j], m)
                                * crate::value::value(v, seq![filter, c, i, j], m),
                    ),
            ),
    )
}

/// The norm of a whole filter.
pub open spec fn norm(v: Tensor, filter: int, m: Reading) -> real {
    (m.sqrt)(squares(v, filter, m))
}

/// A sum of numbers that are not negative is not negative.
proof fn lemma_sum_not_negative(n: nat, row: spec_fn(int) -> real)
    requires
        forall|k: int| 0 <= k < n ==> #[trigger] row(k) >= 0real,
    ensures
        crate::value::sum(n, row) >= 0real,
    decreases n,
{
    if n > 0 {
        lemma_sum_not_negative((n - 1) as nat, row);
        assert(row(n - 1) >= 0real);
    }
}

/// A norm is not negative, and its square is the sum of the squares.
pub proof fn lemma_norm(v: Tensor, filter: int, m: Reading)
    requires
        m.rooted(),
    ensures
        norm(v, filter, m) >= 0real,
        norm(v, filter, m) * norm(v, filter, m) == squares(v, filter, m),
{
    let rows = |j: int|
        crate::value::sum(
            v.at(2) as nat,
            |i: int|
                crate::value::sum(
                    v.at(1) as nat,
                    |c: int|
                        crate::value::value(v, seq![filter, c, i, j], m) * crate::value::value(
                            v,
                            seq![filter, c, i, j],
                            m,
                        ),
                ),
        );
    assert forall|j: int| 0 <= j < v.at(3) implies #[trigger] rows(j) >= 0real by {
        let cells = |i: int|
            crate::value::sum(
                v.at(1) as nat,
                |c: int|
                    crate::value::value(v, seq![filter, c, i, j], m) * crate::value::value(
                        v,
                        seq![filter, c, i, j],
                        m,
                    ),
            );
        assert forall|i: int| 0 <= i < v.at(2) implies #[trigger] cells(i) >= 0real by {
            let powers = |c: int|
                crate::value::value(v, seq![filter, c, i, j], m) * crate::value::value(
                    v,
                    seq![filter, c, i, j],
                    m,
                );
            assert forall|c: int| 0 <= c < v.at(1) implies #[trigger] powers(c) >= 0real by {
                let a = crate::value::value(v, seq![filter, c, i, j], m);
                assert(a * a >= 0real) by (nonlinear_arith);
            }
            lemma_sum_not_negative(v.at(1) as nat, powers);
        }
        lemma_sum_not_negative(v.at(2) as nat, cells);
    }
    lemma_sum_not_negative(v.at(3) as nat, rows);
}

impl WNConv2d {
    /// The squares summed over the channels and the kernel, dimension after dimension.
    proof fn lemma_squares(v: Tensor, filter: int, m: Reading)
        requires
            v.shape.rank() == 4,
            0 <= filter < v.at(0),
        ensures
            ({
                let sums = v.scalar_expr(
                    ScalarOp::Powf,
                    Scalar::literal_expr(TWO),
                ).sum_dim_expr(1).sum_dim_expr(2).sum_dim_expr(3);
                &&& sums.shape == Shape::D4(v.at(0), 1, 1, 1)
                &&& crate::value::value(sums, seq![filter, 0, 0, 0], m) == squares(v, filter, m)
            }),
    {
        broadcast use crate::value::group_elementwise;

        let powers = v.scalar_expr(ScalarOp::Powf, Scalar::literal_expr(TWO));
        let first = powers.sum_dim_expr(1);
        let second = first.sum_dim_expr(2);
        let sums = second.sum_dim_expr(3);
        assert(powers.shape == v.shape) by {
            reveal(Tensor::scalar_expr);
        }
        assert(first.shape == v.shape.resized(1, 1) && second.shape == first.shape.resized(2, 1)
            && sums.shape == second.shape.resized(3, 1)) by {
            reveal(Tensor::sum_dim_expr);
        }
        crate::number::lemma_small_numbers();
        let origin = seq![filter, 0, 0, 0];
        crate::value::lemma_sum_value(second, 3, origin, m);
        let rows = |j: int| crate::value::value(second, origin.update(3, j), m);
        let wanted = |j: int|
            crate::value::sum(
                v.at(2) as nat,
                |i: int|
                    crate::value::sum(
                        v.at(1) as nat,
                        |c: int|
                            crate::value::value(v, seq![filter, c, i, j], m)
                                * crate::value::value(v, seq![filter, c, i, j], m),
                    ),
            );
        assert forall|j: int| 0 <= j < v.at(3) implies #[trigger] rows(j) == wanted(j) by {
            let at = origin.update(3, j);
            crate::value::lemma_sum_value(first, 2, at, m);
            let cells = |i: int| crate::value::value(first, at.update(2, i), m);
            let wanted_cells = |i: int|
                crate::value::sum(
                    v.at(1) as nat,
                    |c: int|
                        crate::value::value(v, seq![filter, c, i, j], m) * crate::value::value(
                            v,
                            seq![filter, c, i, j],
                            m,
                        ),
                );
            assert forall|i: int| 0 <= i < v.at(2) implies #[trigger] cells(i) == wanted_cells(
                i,
            ) by {
                let there = at.update(2, i);
                crate::value::lemma_sum_value(powers, 1, there, m);
                let squared = |c: int| crate::value::value(powers, there.update(1, c), m);
                let wanted_squared = |c: int|
                    crate::value::value(v, seq![filter, c, i, j], m) * crate::value::value(
                        v,
                        seq![filter, c, i, j],
                        m,
                    );
                assert forall|c: int| 0 <= c < v.at(1) implies #[trigger] squared(c)
                    == wanted_squared(c) by {
                    assert(there.update(1, c) =~= seq![filter, c, i, j]);
                }
                crate::value::lemma_same_sum(v.at(1) as nat, squared, wanted_squared);
            }
            crate::value::lemma_same_sum(v.at(2) as nat, cells, wanted_cells);
        }
        crate::value::lemma_same_sum(v.at(3) as nat, rows, wanted);
    }

    /// The weights are the directions times the magnitudes over the norms of whole filters,
    /// whatever the kernel, but for a floor that keeps the norms from being zero.
    pub proof fn lemma_weight(v: Tensor, g: Tensor, idx: Seq<int>, m: Reading)
        requires
            v.shape.rank() == 4,
            g.shape == Shape::D4(v.at(0), 1, 1, 1),
            crate::element::within(v.shape, idx),
        ensures
            WNConv2d::weight_expr(v, g).shape == v.shape,
            crate::value::value(WNConv2d::weight_expr(v, g), idx, m) == crate::value::value(
                v,
                idx,
                m,
            ) * crate::value::value(g, seq![idx[0], 0, 0, 0], m) / (norm(v, idx[0], m)
                + crate::number::double(NORM_FLOOR_2D)),
    {
        broadcast use crate::value::group_elementwise;

        let sums = v.scalar_expr(ScalarOp::Powf, Scalar::literal_expr(TWO)).sum_dim_expr(
            1,
        ).sum_dim_expr(2).sum_dim_expr(3);
        let roots = sums.unary_expr(UnaryOp::Sqrt);
        let shape = Shape::D4(v.at(0), 1, 1, 1);
        let norms = roots.reshape_expr(shape);
        let floored = norms.scalar_expr(ScalarOp::Add, Scalar::literal_expr(NORM_FLOOR_2D));
        let origin = seq![idx[0], 0, 0, 0];
        WNConv2d::lemma_squares(v, idx[0], m);
        assert(roots.shape == shape) by {
            reveal(Tensor::unary_expr);
        }
        assert(crate::element::within(shape, origin));
        crate::value::lemma_reshape_value(roots, shape, origin, origin, m);
        assert(floored.shape == shape && v.times_expr(g).shape == v.shape
            && WNConv2d::weight_expr(v, g).shape == v.shape) by {
            reveal(Tensor::scalar_expr);
            reveal(Tensor::binary_expr);
        }
        assert(crate::element::unstretched(shape, idx) =~= origin);
        assert(crate::element::unstretched(shape, origin) =~= origin);
        crate::value::lemma_stretched(norms, idx, origin, m);
        crate::value::lemma_stretched(g, idx, origin, m);
    }

    /// A layer whose magnitudes are the norms has the directions for weights, each times the same
    /// number for a filter: its norm over that norm and the floor.
    pub proof fn lemma_plain_weight(v: Tensor, g: Tensor, idx: Seq<int>, m: Reading)
        requires
            m.rooted(),
            v.shape.rank() == 4,
            g.shape == Shape::D4(v.at(0), 1, 1, 1),
            crate::element::within(v.shape, idx),
            crate::value::value(g, seq![idx[0], 0, 0, 0], m) == norm(v, idx[0], m),
        ensures
            ({
                let n = norm(v, idx[0], m);
                let floor = crate::number::double(NORM_FLOOR_2D);
                &&& n + floor > 0real
                &&& crate::value::value(WNConv2d::weight_expr(v, g), idx, m)
                    == crate::value::value(v, idx, m) * (n / (n + floor))
            }),
    {
        WNConv2d::lemma_weight(v, g, idx, m);
        lemma_norm(v, idx[0], m);
        crate::number::lemma_positive(NORM_FLOOR_2D);
        let a = crate::value::value(v, idx, m);
        let n = norm(v, idx[0], m);
        let d = n + crate::number::double(NORM_FLOOR_2D);
        assert(a * n / d == a * (n / d)) by (nonlinear_arith)
            requires
                d > 0real,
        ;
    }

    /// Whether the magnitudes are the norms of the filters, as in a layer that nothing was loaded
    /// into yet.
    pub open spec fn fresh(self, m: Reading) -> bool {
        forall|filter: int|
            0 <= filter < self.weight_v.shape.at(0) ==> crate::value::value(
                self.weight_g.value_expr(),
                seq![filter, 0, 0, 0],
                m,
            ) == #[trigger] norm(self.weight_v.value_expr(), filter, m)
    }

    /// The convolution with the directions for weights.
    pub open spec fn plain_expr(self, input: Tensor) -> Tensor {
        input.conv2d_expr(
            self.weight_v.value_expr(),
            Param::optional_value_expr(self.bias),
            self.rows(input.at(2), input.at(3)),
            self.columns(input.at(2), input.at(3)),
        )
    }

    /// What is added `k`-th is that of the plain convolution, scaled.
    proof fn lemma_summand(self, input: Tensor, k: int, idx: Seq<int>, m: Reading)
        requires
            m.rooted(),
            self.wf(),
            self.fresh(m),
            crate::element::within(self.forward_expr(input).shape, idx),
            0 <= k < self.weight_v.shape.at(1) * (self.weight_v.shape.at(2)
                * self.weight_v.shape.at(3)),
        ensures
            ({
                let n = norm(self.weight_v.value_expr(), idx[1], m);
                let ratio = n / (n + crate::number::double(NORM_FLOOR_2D));
                crate::value::summand(self.forward_expr(input), 0, k, idx, m)
                    == crate::value::summand(self.plain_expr(input), 0, k, idx, m) * ratio
            }),
    {
        reveal(Tensor::leaf_expr);
        reveal(Tensor::conv2d_expr);
        let v = self.weight_v.value_expr();
        let g = self.weight_g.value_expr();
        let weight = WNConv2d::weight_expr(v, g);
        let (across, down, wide) = (v.at(1) as int, v.at(2) as int, v.at(3) as int);
        let taps = v.at(2) * v.at(3);
        assert(weight.shape == v.shape) by {
            reveal(Tensor::binary_expr);
            reveal(Tensor::scalar_expr);
            reveal(Tensor::reshape_expr);
        }
        assert(taps > 0) by (nonlinear_arith)
            requires
                0 <= k < across * taps,
                across >= 0,
        ;
        assert(wide > 0) by (nonlinear_arith)
            requires
                taps > 0,
                taps == down * wide,
                wide >= 0,
                down >= 0,
        ;
        let (channel, row, column) = (k / taps, (k % taps) / wide, (k % taps) % wide);
        assert(0 <= channel < across) by (nonlinear_arith)
            requires
                0 <= k < across * taps,
                taps > 0,
                channel == k / taps,
        ;
        assert(0 <= k % taps < taps) by (nonlinear_arith)
            requires
                taps > 0,
        ;
        let rest = k % taps;
        assert(0 <= row < down) by (nonlinear_arith)
            requires
                0 <= rest < down * wide,
                wide > 0,
                row == rest / wide,
        ;
        assert(0 <= column < wide) by (nonlinear_arith)
            requires
                wide > 0,
                column == rest % wide,
        ;
        let at = seq![idx[1], channel, row, column];
        assert(crate::element::within(v.shape, at));
        assert(crate::value::value(g, seq![idx[1], 0, 0, 0], m) == norm(v, idx[1], m));
        WNConv2d::lemma_plain_weight(v, g, at, m);
        let n = norm(v, idx[1], m);
        let ratio = n / (n + crate::number::double(NORM_FLOOR_2D));
        let a = crate::value::value(v, at, m);
        let rows = self.rows(input.at(2), input.at(3));
        let columns = self.columns(input.at(2), input.at(3));
        let group = idx[1] / (v.at(0) as int / rows.groups as int);
        let b = crate::value::value(
            input,
            seq![
                idx[0],
                group * v.at(1) + channel,
                idx[2] * rows.stride + row * rows.dilation - rows.before,
                idx[3] * columns.stride + column * columns.dilation - columns.before,
            ],
            m,
        );
        assert((a * ratio) * b == (a * b) * ratio) by (nonlinear_arith);
        assert(0real * ratio == 0real) by (nonlinear_arith);
        assert(crate::value::value(weight, at, m) == a * ratio);
    }

    proof fn lemma_totals(self, input: Tensor, k: nat, idx: Seq<int>, m: Reading)
        requires
            m.rooted(),
            self.wf(),
            self.fresh(m),
            crate::element::within(self.forward_expr(input).shape, idx),
            k <= self.weight_v.shape.at(1) * (self.weight_v.shape.at(2) * self.weight_v.shape.at(
                3,
            )),
        ensures
            ({
                let n = norm(self.weight_v.value_expr(), idx[1], m);
                let ratio = n / (n + crate::number::double(NORM_FLOOR_2D));
                crate::value::total(self.forward_expr(input), 0, k, idx, m)
                    == crate::value::total(self.plain_expr(input), 0, k, idx, m) * ratio
            }),
        decreases k,
    {
        let n = norm(self.weight_v.value_expr(), idx[1], m);
        let ratio = n / (n + crate::number::double(NORM_FLOOR_2D));
        if k == 0 {
            assert(0real * ratio == 0real) by (nonlinear_arith);
        } else {
            self.lemma_totals(input, (k - 1) as nat, idx, m);
            self.lemma_summand(input, k - 1, idx, m);
            let a = crate::value::total(self.plain_expr(input), 0, (k - 1) as nat, idx, m);
            let b = crate::value::summand(self.plain_expr(input), 0, k - 1, idx, m);
            assert(a * ratio + b * ratio == (a + b) * ratio) by (nonlinear_arith);
        }
    }

    /// A pass through a fresh layer is the plain convolution, but for the floor: what is added to
    /// the bias is scaled by the norm of the filter over that norm and the floor.
    pub proof fn lemma_fresh_pass(self, input: Tensor, idx: Seq<int>, m: Reading)
        requires
            m.rooted(),
            self.wf(),
            self.fresh(m),
            crate::element::within(self.forward_expr(input).shape, idx),
        ensures
            self.plain_expr(input).shape == self.forward_expr(input).shape,
            ({
                let n = norm(self.weight_v.value_expr(), idx[1], m);
                let floor = crate::number::double(NORM_FLOOR_2D);
                let bias = match Param::optional_value_expr(self.bias) {
                    Some(b) => crate::value::value(b, seq![idx[1]], m),
                    None => 0real,
                };
                &&& n >= 0real && floor > 0real
                &&& crate::value::value(self.forward_expr(input), idx, m) - bias == (
                crate::value::value(self.plain_expr(input), idx, m) - bias) * (n / (n + floor))
            }),
    {
        reveal(Tensor::leaf_expr);
        reveal(Tensor::conv2d_expr);
        let v = self.weight_v.value_expr();
        let weight = WNConv2d::weight_expr(v, self.weight_g.value_expr());
        assert(weight.shape == v.shape) by {
            reveal(Tensor::binary_expr);
            reveal(Tensor::scalar_expr);
            reveal(Tensor::reshape_expr);
        }
        let k = v.at(1) * (v.at(2) * v.at(3));
        assert(k >= 0) by (nonlinear_arith)
            requires
                k == v.at(1) * (v.at(2) * v.at(3)),
        ;
        self.lemma_totals(input, k as nat, idx, m);
        lemma_norm(v, idx[1], m);
        crate::number::lemma_positive(NORM_FLOOR_2D);
        crate::element::lemma_unstretched(self.forward_expr(input).shape, idx);
    }
}

} // verus!

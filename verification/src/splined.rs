//! What the spline layers undo: a signal that went through one comes back under the mask.

use crate::nn::Conv1d;
use crate::number::{Real, Scalar};
use crate::predictor::ConvFlow;
use crate::shape::Shape;
use crate::spline::SplineBox;
use crate::tensor::{BinaryOp, ScalarOp, Tensor, UnaryOp};
use crate::value::Reading;
use crate::wavenet::DDSConv;
use vstd::prelude::*;

verus! {

/// Whether two signals have the same values, but where the mask is zero.
pub open spec fn same_unmasked(x: Tensor, y: Tensor, x_mask: Tensor, m: Reading) -> bool {
    &&& x.shape == y.shape
    &&& forall|idx: Seq<int>|
        crate::value::value(x_mask, idx, m) == 0real || #[trigger] crate::value::value(x, idx, m)
            == crate::value::value(y, idx, m)
}

/// Under the mask such signals are the same.
pub proof fn lemma_masked(x: Tensor, y: Tensor, x_mask: Tensor, m: Reading)
    requires
        same_unmasked(x, y, x_mask, m),
        x.shape.rank() == x_mask.shape.rank(),
    ensures
        crate::alike::alike(x.times_expr(x_mask), y.times_expr(x_mask), m, m),
{
    let (p, q) = (x.times_expr(x_mask), y.times_expr(x_mask));
    assert(p.shape == q.shape) by {
        reveal(Tensor::binary_expr);
    }
    assert forall|idx: Seq<int>| #[trigger]
        crate::value::value(p, idx, m) == crate::value::value(q, idx, m) by {
        crate::value::lemma_binary_value(x, BinaryOp::Mul, x_mask, idx, m);
        crate::value::lemma_binary_value(y, BinaryOp::Mul, x_mask, idx, m);
        let (a, b) = (crate::value::value(x, idx, m), crate::value::value(y, idx, m));
        if crate::value::value(x_mask, idx, m) == 0real {
            assert(a * 0real == 0real) by (nonlinear_arith);
            assert(b * 0real == 0real) by (nonlinear_arith);
        }
    }
    reveal(crate::alike::alike);
}

/// A convolution has its bias where there is nothing.
proof fn lemma_empty_total(t: Tensor, n: nat, idx: Seq<int>, m: Reading)
    requires
        *t.op is Conv1d,
        !crate::element::within(t.shape, idx),
    ensures
        crate::value::total(t, 0, n, idx, m) == 0real,
    decreases n,
{
    if n > 0 {
        lemma_empty_total(t, (n - 1) as nat, idx, m);
        assert(crate::value::summand(t, 0, n - 1, idx, m) == 0real);
    }
}

impl Conv1d {
    /// A pointwise layer makes the same of signals that are the same where the mask is one, but
    /// where the mask is zero.
    proof fn lemma_unmasked(self, x: Tensor, y: Tensor, x_mask: Tensor, m: Reading)
        requires
            self.pointwise(x.at(1), self.channels_out()),
            x.shape == y.shape,
            x.at(2) >= 1,
            crate::inverse::is_mask(x_mask, x.shape, m),
            crate::inverse::same_where(x, y, x_mask, x.shape, m),
        ensures
            same_unmasked(self.forward_expr(x), self.forward_expr(y), x_mask, m),
            self.forward_expr(x).shape.rank() == 3,
    {
        let (p, q) = (self.forward_expr(x), self.forward_expr(y));
        crate::inverse::lemma_pointwise(self, self.channels_out(), x, y, x_mask, m);
        assert(p.shape == q.shape && p.shape.rank() == 3 && *p.op is Conv1d && *q.op is Conv1d) by {
            reveal(Tensor::conv1d_expr);
        }
        assert forall|idx: Seq<int>|
            crate::value::value(x_mask, idx, m) == 0real || #[trigger] crate::value::value(p, idx, m)
                == crate::value::value(q, idx, m) by {
            let i = crate::element::unstretched(p.shape, idx);
            if crate::element::within(p.shape, i) {
                let k = crate::value::value(x_mask, idx, m);
                reveal(crate::alike::alike);
                crate::value::lemma_binary_value(p, BinaryOp::Mul, x_mask, idx, m);
                crate::value::lemma_binary_value(q, BinaryOp::Mul, x_mask, idx, m);
                assert(crate::value::value(p.times_expr(x_mask), idx, m) == crate::value::value(
                    q.times_expr(x_mask),
                    idx,
                    m,
                ));
                let (a, b) = (crate::value::value(p, idx, m), crate::value::value(q, idx, m));
                if k != 0real {
                    let gap = a - b;
                    assert(gap * k == a * k - b * k) by (nonlinear_arith)
                        requires
                            gap == a - b,
                    ;
                    assert(gap == 0real) by (nonlinear_arith)
                        requires
                            gap * k == 0real,
                            k != 0real,
                    ;
                }
            } else {
                reveal(Tensor::conv1d_expr);
                let n = (self.weight.value_expr().at(1) * self.weight.value_expr().at(2)) as nat;
                lemma_empty_total(p, n, i, m);
                lemma_empty_total(q, n, i, m);
            }
        }
    }
}

impl DDSConv {
    proof fn lemma_unmasked_after(
        self,
        k: nat,
        x: Tensor,
        y: Tensor,
        x_mask: Tensor,
        m: Reading,
    )
        requires
            same_unmasked(x, y, x_mask, m),
            x.shape.rank() == 3,
            x_mask.shape.rank() == 3,
        ensures
            same_unmasked(self.after_expr(k, x, x_mask), self.after_expr(k, y, x_mask), x_mask, m),
            self.after_expr(k, x, x_mask).shape.rank() == 3,
        decreases k,
    {
        if k > 0 {
            self.lemma_unmasked_after((k - 1) as nat, x, y, x_mask, m);
            let i = k - 1;
            let (a, b) = (
                self.after_expr((k - 1) as nat, x, x_mask),
                self.after_expr((k - 1) as nat, y, x_mask),
            );
            lemma_masked(a, b, x_mask, m);
            let (p, q) = (a.times_expr(x_mask), b.times_expr(x_mask));
            let c = self.drop.forward_expr(
                self.norms_2@[i].over_channels_expr(
                    self.convs_1x1@[i].forward_expr(
                        self.norms_1@[i].over_channels_expr(
                            self.convs_sep@[i].forward_expr(p),
                        ).unary_expr(UnaryOp::Gelu),
                    ),
                ).unary_expr(UnaryOp::Gelu),
            );
            let d = self.drop.forward_expr(
                self.norms_2@[i].over_channels_expr(
                    self.convs_1x1@[i].forward_expr(
                        self.norms_1@[i].over_channels_expr(
                            self.convs_sep@[i].forward_expr(q),
                        ).unary_expr(UnaryOp::Gelu),
                    ),
                ).unary_expr(UnaryOp::Gelu),
            );
            assert(crate::alike::alike(c, d, m, m)) by {
                broadcast use {crate::alike::group_alike, crate::readings::group_layers};

            }
            assert(c.shape.rank() == 3) by {
                reveal(Tensor::conv1d_expr);
                reveal(Tensor::swap_dims_expr);
                reveal(Tensor::layer_norm_expr);
                reveal(Tensor::unary_expr);
                reveal(Tensor::dropout_expr);
            }
            reveal(crate::alike::alike);
            let (u, v) = (a.plus_expr(c), b.plus_expr(d));
            assert(u.shape == v.shape && u.shape.rank() == 3) by {
                reveal(Tensor::binary_expr);
            }
            assert forall|idx: Seq<int>|
                crate::value::value(x_mask, idx, m) == 0real || #[trigger] crate::value::value(
                    u,
                    idx,
                    m,
                ) == crate::value::value(v, idx, m) by {
                crate::value::lemma_binary_value(a, BinaryOp::Add, c, idx, m);
                crate::value::lemma_binary_value(b, BinaryOp::Add, d, idx, m);
                assert(crate::value::value(x_mask, idx, m) == 0real || crate::value::value(
                    a,
                    idx,
                    m,
                ) == crate::value::value(b, idx, m));
                assert(crate::value::value(c, idx, m) == crate::value::value(d, idx, m));
            }
        }
    }

    proof fn lemma_unmasked(
        self,
        x: Tensor,
        y: Tensor,
        x_mask: Tensor,
        g: Option<Tensor>,
        m: Reading,
    )
        requires
            same_unmasked(x, y, x_mask, m),
            x.shape.rank() == 3,
            x_mask.shape.rank() == 3,
            g matches Some(g) ==> g.shape.rank() == 3,
        ensures
            crate::alike::alike(
                self.forward_expr(x, x_mask, g),
                self.forward_expr(y, x_mask, g),
                m,
                m,
            ),
    {
        let (a, b) = (DDSConv::conditioned_expr(x, g), DDSConv::conditioned_expr(y, g));
        assert(a.shape == b.shape && a.shape.rank() == 3) by {
            reveal(Tensor::binary_expr);
        }
        assert forall|idx: Seq<int>|
            crate::value::value(x_mask, idx, m) == 0real || #[trigger] crate::value::value(a, idx, m)
                == crate::value::value(b, idx, m) by {
            assert(crate::value::value(x_mask, idx, m) == 0real || crate::value::value(x, idx, m)
                == crate::value::value(y, idx, m));
            if let Some(g) = g {
                crate::value::lemma_binary_value(x, BinaryOp::Add, g, idx, m);
                crate::value::lemma_binary_value(y, BinaryOp::Add, g, idx, m);
            }
        }
        let n = self.n_layers as nat;
        self.lemma_unmasked_after(n, a, b, x_mask, m);
        lemma_masked(self.after_expr(n, a, x_mask), self.after_expr(n, b, x_mask), x_mask, m);
    }
}

/// A tensor whose own values are put where some mask holds has those values.
proof fn lemma_own_values(x: Tensor, y: Tensor, mask: Tensor, mask_: Tensor, m: Reading)
    requires
        crate::alike::alike(x, y, m, m),
    ensures
        crate::alike::alike(x.mask_where_expr(mask, x), y.mask_where_expr(mask_, y), m, m),
        crate::alike::alike(x.mask_where_expr(mask, x), x, m, m),
{
    reveal(crate::alike::alike);
    reveal(Tensor::mask_where_expr);
    let (p, q) = (x.mask_where_expr(mask, x), y.mask_where_expr(mask_, y));
    assert forall|idx: Seq<int>| #[trigger]
        crate::value::value(p, idx, m) == crate::value::value(x, idx, m) by {
        let i = crate::element::unstretched(x.shape, idx);
        assert(crate::element::unstretched(x.shape, i) =~= i);
        crate::value::lemma_stretched(x, i, idx, m);
    }
    assert forall|idx: Seq<int>| #[trigger]
        crate::value::value(q, idx, m) == crate::value::value(y, idx, m) by {
        let i = crate::element::unstretched(y.shape, idx);
        assert(crate::element::unstretched(y.shape, i) =~= i);
        crate::value::lemma_stretched(y, i, idx, m);
    }
    assert forall|idx: Seq<int>| #[trigger]
        crate::value::value(p, idx, m) == crate::value::value(q, idx, m) by {
        assert(crate::value::value(x, idx, m) == crate::value::value(y, idx, m));
        assert(crate::value::value(q, idx, m) == crate::value::value(y, idx, m));
    }
}

/// The line of inputs that the spline with tails is computed of.
pub open spec fn line_expr(x: Tensor, tail_bound: Real) -> Tensor {
    x.mask_where_expr(crate::spline::inside_expr(x, tail_bound), x).squeeze1_expr()
}

/// The rows of settings that the spline with tails is computed of.
pub open spec fn rows_expr(settings: Tensor, x: Tensor, tail_bound: Real) -> Tensor {
    settings.mask_where_expr(
        crate::spline::inside_expr(x, tail_bound).unsqueeze_expr(3),
        settings,
    ).squeeze2_expr()
}

/// The line holds the inputs.
proof fn lemma_line(x: Tensor, tail_bound: Real, k: int, m: Reading)
    requires
        x.shape == Shape::D3(1, 1, x.at(2)),
        x.at(2) != 1,
        0 <= k < x.at(2),
    ensures
        line_expr(x, tail_bound).shape == Shape::D1(x.at(2)),
        crate::value::value(line_expr(x, tail_bound), seq![k], m) == crate::value::value(
            x,
            seq![0, 0, k],
            m,
        ),
{
    let inside = crate::spline::inside_expr(x, tail_bound);
    let own = x.mask_where_expr(inside, x);
    let idx = seq![0, 0, k];
    assert(crate::element::within(x.shape, idx));
    crate::value::lemma_mask_where_value(x, inside, x, idx, m);
    assert(own.shape.sizes_beyond_one() =~= seq![x.at(2)]);
    assert(crate::element::flat(own.shape, idx) == k) by {
        vstd::arithmetic::mul::lemma_mul_basics(x.at(2) as int);
    }
    crate::value::lemma_reshape_value(own, Shape::D1(x.at(2)), seq![k], idx, m);
}

/// Rows that are alike, whatever inputs they are made for.
proof fn lemma_rows(
    settings: Tensor,
    others: Tensor,
    x: Tensor,
    y: Tensor,
    tail_bound: Real,
    m: Reading,
)
    requires
        crate::alike::alike(settings, others, m, m),
        settings.shape == Shape::D4(1, 1, settings.at(2), settings.at(3)),
        settings.at(2) != 1,
        settings.at(3) != 1,
    ensures
        rows_expr(settings, x, tail_bound).shape == Shape::D2(settings.at(2), settings.at(3)),
        crate::alike::alike(
            rows_expr(settings, x, tail_bound),
            rows_expr(others, y, tail_bound),
            m,
            m,
        ),
{
    broadcast use crate::alike::group_alike;

    let (i, j) = (
        crate::spline::inside_expr(x, tail_bound).unsqueeze_expr(3),
        crate::spline::inside_expr(y, tail_bound).unsqueeze_expr(3),
    );
    lemma_own_values(settings, others, i, j, m);
    let (p, q) = (settings.mask_where_expr(i, settings), others.mask_where_expr(j, others));
    assert(p.shape == settings.shape) by {
        reveal(Tensor::mask_where_expr);
    }
    assert(p.shape.sizes_beyond_one() =~= seq![settings.at(2), settings.at(3)]);
    let shape = Shape::D2(settings.at(2), settings.at(3));
    assert(rows_expr(settings, x, tail_bound).shape == shape) by {
        reveal(Tensor::reshape_expr);
    }
}

/// Between the bounds the spline with tails is the spline of the line.
proof fn lemma_inside(
    x: Tensor,
    widths: Tensor,
    heights: Tensor,
    slopes: Tensor,
    inverse: bool,
    bounds: SplineBox,
    tail_bound: Real,
    k: int,
    m: Reading,
)
    requires
        x.shape == Shape::D3(1, 1, x.at(2)),
        x.at(2) != 1,
        0 <= k < x.at(2),
        !crate::knots::beyond(crate::value::value(x, seq![0, 0, k], m), tail_bound),
        ({
            let d = crate::spline::tailed_expr(slopes, bounds.min_derivative);
            bounds.spline_expr(
                line_expr(x, tail_bound),
                rows_expr(widths, x, tail_bound),
                rows_expr(heights, x, tail_bound),
                rows_expr(d, x, tail_bound),
                inverse,
            ).0.shape == Shape::D1(x.at(2))
        }),
    ensures
        ({
            let d = crate::spline::tailed_expr(slopes, bounds.min_derivative);
            let y = crate::spline::unconstrained_expr(
                x,
                widths,
                heights,
                slopes,
                inverse,
                bounds,
                tail_bound,
            ).0;
            &&& y.shape == x.shape
            &&& crate::value::value(y, seq![0, 0, k], m) == crate::value::value(
                bounds.spline_expr(
                    line_expr(x, tail_bound),
                    rows_expr(widths, x, tail_bound),
                    rows_expr(heights, x, tail_bound),
                    rows_expr(d, x, tail_bound),
                    inverse,
                ).0,
                seq![k],
                m,
            )
        }),
{
    let idx = seq![0, 0, k];
    let inside = crate::spline::inside_expr(x, tail_bound);
    let outside = inside.unary_expr(UnaryOp::Not);
    let zeros = Tensor::zeros_expr(x.shape);
    let d = crate::spline::tailed_expr(slopes, bounds.min_derivative);
    let t_outputs = bounds.spline_expr(
        line_expr(x, tail_bound),
        rows_expr(widths, x, tail_bound),
        rows_expr(heights, x, tail_bound),
        rows_expr(d, x, tail_bound),
        inverse,
    ).0;
    let made = t_outputs.reshape_expr(x.shape);
    let start = zeros.mask_where_expr(outside, x);
    let outputs = start.mask_where_expr(inside, made);
    assert(zeros.shape == x.shape) by {
        reveal(Tensor::leaf_expr);
    }
    lemma_found_inside(x, tail_bound, idx, m);
    crate::value::lemma_mask_where_value(zeros, outside, x, idx, m);
    crate::value::lemma_mask_where_value(start, inside, made, idx, m);
    crate::value::lemma_mask_where_value(outputs, inside, outputs, idx, m);
    assert(crate::element::flat(x.shape, idx) == k) by {
        vstd::arithmetic::mul::lemma_mul_basics(x.at(2) as int);
    }
    crate::value::lemma_reshape_value(t_outputs, x.shape, idx, seq![k], m);
}

/// Which inputs are found to lie between the bounds.
proof fn lemma_found_inside(inputs: Tensor, tail_bound: Real, idx: Seq<int>, m: Reading)
    requires
        !crate::knots::beyond(crate::value::value(inputs, idx, m), tail_bound),
    ensures
        crate::value::value(crate::spline::inside_expr(inputs, tail_bound), idx, m) == 1real,
{
    broadcast use crate::value::lemma_scalar_value;

    let bound = Scalar::Literal(tail_bound);
    let above = inputs.scalar_expr(ScalarOp::GreaterEqual, bound.neg_expr());
    let below = inputs.scalar_expr(ScalarOp::LowerEqual, bound);
    assert(above.shape == inputs.shape && below.shape == inputs.shape) by {
        reveal(Tensor::scalar_expr);
    }
    crate::value::lemma_binary_value(above, BinaryOp::And, below, idx, m);
    assert(crate::value::number(bound, m) == crate::number::double(tail_bound.bits));
    assert(crate::value::number(bound.neg_expr(), m) == -crate::value::number(bound, m)) by {
        reveal_with_fuel(crate::value::number, 2);
    }
}

impl ConvFlow {
    /// The bounds of the splines.
    pub open spec fn bounds(self) -> SplineBox {
        crate::spline::symmetric(
            self.tail_bound,
            Real { bits: crate::spline::DEFAULT_MIN_BIN_WIDTH },
            Real { bits: crate::spline::DEFAULT_MIN_BIN_HEIGHT },
            Real { bits: crate::spline::DEFAULT_MIN_DERIVATIVE },
        )
    }

    /// Whether the bins of a least size fit between the bounds, in signals of a shape.
    pub open spec fn bins_fit(
        self,
        x: Shape,
        x_mask: Tensor,
        g: Option<Tensor>,
        m: Reading,
    ) -> bool {
        &&& m.exponential()
        &&& m.logarithmic()
        &&& m.rooted()
        &&& self.wf()
        &&& self.half_channels == 1
        &&& self.num_bins >= 2
        &&& x == Shape::D3(1, 2, x.at(2))
        &&& x.at(2) >= 2
        &&& crate::inverse::is_mask(x_mask, x, m)
        &&& g matches Some(g) ==> g.shape.rank() == 3
        &&& crate::number::double(self.tail_bound.bits) > 0real
        &&& crate::number::double(crate::spline::DEFAULT_MIN_BIN_WIDTH) * (
        self.num_bins as int as real) <= 1real
    }

    /// The second channel is the spline of what it was, under the mask.
    proof fn lemma_second_channel(
        self,
        x: Tensor,
        x_mask: Tensor,
        g: Option<Tensor>,
        reverse: bool,
        c: int,
        m: Reading,
    )
        requires
            self.bins_fit(x.shape, x_mask, g, m),
            0 <= c < x.at(2),
        ensures
            ({
                let x1 = x.slice_expr(1, 1, 2);
                let (w, h, d) = self.splines_expr(x.slice_expr(1, 0, 1), x_mask, g);
                let y1 = crate::spline::unconstrained_expr(
                    x1,
                    w,
                    h,
                    d,
                    reverse,
                    self.bounds(),
                    self.tail_bound,
                ).0;
                &&& x1.shape == Shape::D3(1, 1, x.at(2))
                &&& crate::value::value(x1, seq![0, 0, c], m) == crate::value::value(
                    x,
                    seq![0, 1, c],
                    m,
                )
                &&& self.forward_expr(x, x_mask, g, reverse).0.shape == x.shape
                &&& crate::value::value(
                    self.forward_expr(x, x_mask, g, reverse).0,
                    seq![0, 1, c],
                    m,
                ) == crate::value::value(y1, seq![0, 0, c], m) * crate::value::value(
                    x_mask,
                    seq![0, 1, c],
                    m,
                )
            }),
    {
        let x0 = x.slice_expr(1, 0, 1);
        let x1 = x.slice_expr(1, 1, 2);
        let (w, h, d) = self.splines_expr(x0, x_mask, g);
        let y1 = crate::spline::unconstrained_expr(
            x1,
            w,
            h,
            d,
            reverse,
            self.bounds(),
            self.tail_bound,
        ).0;
        let both = x0.cat_expr(y1, 1);
        assert(x0.shape == Shape::D3(1, 1, x.at(2)) && x1.shape == x0.shape) by {
            reveal(Tensor::slice_expr);
        }
        assert(y1.shape == x1.shape) by {
            reveal(Tensor::leaf_expr);
            reveal(Tensor::mask_where_expr);
        }
        assert(both.shape == x.shape && both.times_expr(x_mask).shape == x.shape) by {
            reveal(Tensor::cat_expr);
            reveal(Tensor::binary_expr);
        }
        let (idx, at) = (seq![0, 1, c], seq![0, 0, c]);
        crate::value::lemma_slice_value(x, 1, 1, 2, at, m);
        assert(at.update(1, at[1] + 1) =~= idx);
        crate::value::lemma_binary_value(both, BinaryOp::Mul, x_mask, idx, m);
        assert(crate::element::within(both.shape, idx));
        crate::value::lemma_cat_value(x0, y1, 1, idx, m);
        assert(idx.update(1, idx[1] - 1) =~= at);
    }

    /// The settings of the splines have a row for each position, and depend only on what the mask
    /// lets through.
    proof fn lemma_same_splines(
        self,
        x: Tensor,
        y: Tensor,
        x_mask: Tensor,
        g: Option<Tensor>,
        m: Reading,
    )
        requires
            self.wf(),
            self.half_channels == 1,
            self.num_bins >= 2,
            x.shape == Shape::D3(1, 1, x.at(2)),
            x.at(2) >= 2,
            y.shape == x.shape,
            crate::inverse::is_mask(x_mask, x.shape, m),
            crate::inverse::same_where(x, y, x_mask, x.shape, m),
            g matches Some(g) ==> g.shape.rank() == 3,
        ensures
            ({
                let (w, h, d) = self.splines_expr(x, x_mask, g);
                let (w_, h_, d_) = self.splines_expr(y, x_mask, g);
                &&& w.shape == Shape::D4(1, 1, x.at(2), self.num_bins)
                &&& h.shape == w.shape
                &&& d.shape == Shape::D4(1, 1, x.at(2), (self.num_bins - 1) as usize)
                &&& crate::alike::alike(w, w_, m, m)
                &&& crate::alike::alike(h, h_, m, m)
                &&& crate::alike::alike(d, d_, m, m)
            }),
    {
        broadcast use {crate::alike::group_alike, crate::readings::group_layers};

        self.pre.lemma_unmasked(x, y, x_mask, m);
        let (h, k) = (self.pre.forward_expr(x), self.pre.forward_expr(y));
        self.convs.lemma_unmasked(h, k, x_mask, g, m);
        let (h, k) = (
            self.convs.forward_expr(h, x_mask, g),
            self.convs.forward_expr(k, x_mask, g),
        );
        let (h, k) = (
            self.proj.forward_expr(h).times_expr(x_mask),
            self.proj.forward_expr(k).times_expr(x_mask),
        );
        assert(crate::alike::alike(h, k, m, m));
        let parts = Shape::D4(x.at(0), x.at(1), (self.num_bins * 3 - 1) as usize, x.at(2));
        let (h, k) = (
            h.reshape_expr(parts).swap_dims_expr(2, 3),
            k.reshape_expr(parts).swap_dims_expr(2, 3),
        );
        assert(crate::alike::alike(h, k, m, m));
        let (w, a, d) = self.splines_expr(x, x_mask, g);
        let (w_, a_, d_) = self.splines_expr(y, x_mask, g);
        assert(crate::alike::alike(w, w_, m, m));
        assert(crate::alike::alike(a, a_, m, m));
        assert(crate::alike::alike(d, d_, m, m));
        reveal(Tensor::reshape_expr);
        reveal(Tensor::swap_dims_expr);
        reveal(Tensor::slice_expr);
        reveal(Tensor::scalar_expr);
    }

    /// What the first channel lets through is the same before and after.
    proof fn lemma_same_first(
        self,
        x: Tensor,
        x_mask: Tensor,
        g: Option<Tensor>,
        m: Reading,
    )
        requires
            self.bins_fit(x.shape, x_mask, g, m),
        ensures
            ({
                let x0 = x.slice_expr(1, 0, 1);
                let y0 = self.forward_expr(x, x_mask, g, false).0.slice_expr(1, 0, 1);
                &&& x0.shape == Shape::D3(1, 1, x.at(2))
                &&& y0.shape == x0.shape
                &&& crate::inverse::is_mask(x_mask, x0.shape, m)
                &&& crate::inverse::same_where(x0, y0, x_mask, x0.shape, m)
            }),
    {
        let y = self.forward_expr(x, x_mask, g, false).0;
        let (x0, y0) = (x.slice_expr(1, 0, 1), y.slice_expr(1, 0, 1));
        self.lemma_second_channel(x, x_mask, g, false, 0, m);
        assert(x0.shape == Shape::D3(1, 1, x.at(2)) && y0.shape == x0.shape) by {
            reveal(Tensor::slice_expr);
        }
        assert forall|idx: Seq<int>| crate::element::within(x0.shape, idx) implies {
            let k = #[trigger] crate::value::value(x_mask, idx, m);
            k == 0real || k == 1real
        } by {
            assert(crate::element::within(x.shape, idx));
        }
        assert forall|idx: Seq<int>|
            crate::element::within(x0.shape, idx) && crate::value::value(x_mask, idx, m)
                == 1real implies #[trigger] crate::value::value(x0, idx, m)
            == crate::value::value(y0, idx, m) by {
            assert(crate::element::within(x.shape, idx));
            crate::value::lemma_slice_value(x, 1, 0, 1, idx, m);
            crate::value::lemma_slice_value(y, 1, 0, 1, idx, m);
            assert(idx.update(1, idx[1] + 0) =~= idx);
            self.lemma_kept_channels(x, x_mask, g, false, idx, m);
            let v = crate::value::value(x, idx, m);
            assert(v * 1real == v) by (nonlinear_arith);
        }
    }

    /// What lies between the bounds in the second channel comes back where the mask is one.
    proof fn lemma_undone_inside(
        self,
        x: Tensor,
        x_mask: Tensor,
        g: Option<Tensor>,
        c: int,
        m: Reading,
    )
        requires
            self.bins_fit(x.shape, x_mask, g, m),
            0 <= c < x.at(2),
            crate::value::value(x_mask, seq![0, 1, c], m) == 1real,
            !crate::knots::beyond(crate::value::value(x, seq![0, 1, c], m), self.tail_bound),
        ensures
            ({
                let y = self.forward_expr(x, x_mask, g, false).0;
                crate::value::value(
                    self.forward_expr(y, x_mask, g, true).0,
                    seq![0, 1, c],
                    m,
                ) == crate::value::value(x, seq![0, 1, c], m)
            }),
    {
        let y = self.forward_expr(x, x_mask, g, false).0;
        let bounds = self.bounds();
        let bound = self.tail_bound;
        let (x0, x1) = (x.slice_expr(1, 0, 1), x.slice_expr(1, 1, 2));
        let (y0, y1) = (y.slice_expr(1, 0, 1), y.slice_expr(1, 1, 2));
        let at = seq![0, 0, c];
        self.lemma_second_channel(x, x_mask, g, false, c, m);
        self.lemma_second_channel(y, x_mask, g, true, c, m);
        self.lemma_same_first(x, x_mask, g, m);
        self.lemma_same_splines(x0, y0, x_mask, g, m);
        let (w, h, d) = self.splines_expr(x0, x_mask, g);
        let (w_, h_, d_) = self.splines_expr(y0, x_mask, g);
        let (e, e_) = (
            crate::spline::tailed_expr(d, bounds.min_derivative),
            crate::spline::tailed_expr(d_, bounds.min_derivative),
        );
        assert(e.shape == Shape::D4(1, 1, x.at(2), (self.num_bins + 1) as usize)) by {
            reveal(Tensor::pad_expr);
            reveal(Tensor::slice_fill_expr);
        }
        assert(crate::alike::alike(e, e_, m, m)) by {
            broadcast use crate::alike::group_alike;

            assert(crate::alike::alike(d.pad_expr(3, 1, 1), d_.pad_expr(3, 1, 1), m, m));
        }
        lemma_rows(w, w_, x1, y1, bound, m);
        lemma_rows(h, h_, x1, y1, bound, m);
        lemma_rows(e, e_, x1, y1, bound, m);
        let (p, q, r) = (
            rows_expr(w, x1, bound),
            rows_expr(h, x1, bound),
            rows_expr(e, x1, bound),
        );
        let (p_, q_, r_) = (
            rows_expr(w_, y1, bound),
            rows_expr(h_, y1, bound),
            rows_expr(e_, y1, bound),
        );
        let (line, line_) = (line_expr(x1, bound), line_expr(y1, bound));
        lemma_line(x1, bound, c, m);
        lemma_line(y1, bound, c, m);
        self.lemma_fits(x.at(2), p, q, r, m);
        let v = crate::value::value(x, seq![0, 1, c], m);
        let j = bounds.lemma_forward(line, p, q, r, c, m);
        bounds.lemma_ends(line, p, q, r, c, m);
        lemma_inside(x1, w, h, d, false, bounds, bound, c, m);
        let there = crate::value::value(bounds.spline_expr(line, p, q, r, false).0, seq![c], m);
        assert(there * 1real == there) by (nonlinear_arith);
        bounds.lemma_undone(line, line_, p, q, r, c, m);
        let known = bounds.spline_expr(line_, p, q, r, true).0;
        let found = bounds.spline_expr(line_, p_, q_, r_, true).0;
        assert(crate::alike::alike(known, found, m, m)) by {
            crate::alike::lemma_alike_itself(line_, m);
            bounds.lemma_alike_spline(line_, line_, p, p_, q, q_, r, r_, true, m, m);
        }
        assert(found.shape == known.shape && crate::value::value(known, seq![c], m)
            == crate::value::value(found, seq![c], m)) by {
            reveal(crate::alike::alike);
        }
        lemma_inside(y1, w_, h_, d_, true, bounds, bound, c, m);
        assert(v * 1real == v) by (nonlinear_arith);
    }

    /// Rows of so many bins and slopes make splines between the bounds.
    proof fn lemma_fits(self, rows: usize, p: Tensor, q: Tensor, r: Tensor, m: Reading)
        requires
            m.exponential(),
            m.logarithmic(),
            m.rooted(),
            rows >= 2,
            2 <= self.num_bins < usize::MAX,
            crate::number::double(self.tail_bound.bits) > 0real,
            crate::number::double(crate::spline::DEFAULT_MIN_BIN_WIDTH) * (
            self.num_bins as int as real) <= 1real,
            p.shape == Shape::D2(rows, self.num_bins),
            q.shape == p.shape,
            r.shape == Shape::D2(rows, (self.num_bins + 1) as usize),
        ensures
            self.bounds().fits(rows, p, q, r, m),
            crate::value::number(self.bounds().left, m) == -crate::number::double(
                self.tail_bound.bits,
            ),
            crate::value::number(self.bounds().right, m) == crate::number::double(
                self.tail_bound.bits,
            ),
            crate::value::number(self.bounds().bottom, m) == -crate::number::double(
                self.tail_bound.bits,
            ),
            crate::value::number(self.bounds().top, m) == crate::number::double(
                self.tail_bound.bits,
            ),
    {
        reveal_with_fuel(crate::value::number, 2);
        crate::number::lemma_positive(crate::spline::DEFAULT_MIN_BIN_WIDTH);
    }

    /// The way back undoes the way there: any signal comes back under the mask.
    pub proof fn lemma_undone(
        self,
        x: Tensor,
        x_mask: Tensor,
        g: Option<Tensor>,
        idx: Seq<int>,
        m: Reading,
    )
        requires
            self.bins_fit(x.shape, x_mask, g, m),
            crate::element::within(x.shape, idx),
        ensures
            ({
                let y = self.forward_expr(x, x_mask, g, false).0;
                crate::value::value(self.forward_expr(y, x_mask, g, true).0, idx, m)
                    == crate::value::value(x, idx, m) * crate::value::value(x_mask, idx, m)
            }),
    {
        let y = self.forward_expr(x, x_mask, g, false).0;
        let v = crate::value::value(x, idx, m);
        let k = crate::value::value(x_mask, idx, m);
        let c = idx[2];
        assert(k == 0real || k == 1real);
        assert(v * 1real == v) by (nonlinear_arith);
        assert(v * 0real == 0real) by (nonlinear_arith);
        assert(0real * 0real == 0real) by (nonlinear_arith);
        self.lemma_second_channel(x, x_mask, g, false, c, m);
        self.lemma_second_channel(y, x_mask, g, true, c, m);
        if idx[1] == 0 {
            self.lemma_kept_channels(x, x_mask, g, false, idx, m);
            self.lemma_kept_channels(y, x_mask, g, true, idx, m);
        } else {
            assert(idx =~= seq![0, 1, c]);
            if k == 0real {
                let (w, h, d) = self.splines_expr(y.slice_expr(1, 0, 1), x_mask, g);
                let u = crate::value::value(
                    crate::spline::unconstrained_expr(
                        y.slice_expr(1, 1, 2),
                        w,
                        h,
                        d,
                        true,
                        self.bounds(),
                        self.tail_bound,
                    ).0,
                    seq![0, 0, c],
                    m,
                );
                assert(u * 0real == 0real) by (nonlinear_arith);
            } else if crate::knots::beyond(v, self.tail_bound) {
                self.lemma_kept_channels(x, x_mask, g, false, idx, m);
                self.lemma_kept_channels(y, x_mask, g, true, idx, m);
            } else {
                self.lemma_undone_inside(x, x_mask, g, c, m);
            }
        }
    }
}

} // verus!

//! What is drawn at random has no influence where its scale is zero.

use crate::flow::ElementwiseAffine;
use crate::number::{Real, Scalar, ZERO};
use crate::predictor::{
    ConvFlow, StochasticDurationPredictor, StochasticDurationPredictorLayers,
};
use crate::shape::Shape;
use crate::spline::{Segment, SplineBox, EDGE_TOLERANCE};
use crate::tensor::{BinaryOp, Noise, ScalarOp, Tensor, UnaryOp};
use crate::value::Reading;
use vstd::prelude::*;

verus! {

/// Noise of scale zero is the same, whatever is drawn.
pub proof fn lemma_silenced(x: Tensor, y: Tensor, scale: Real, m: Reading, n: Reading)
    requires
        x.shape == y.shape,
        scale.bits == ZERO,
    ensures
        crate::alike::alike(
            x.scalar_expr(ScalarOp::Mul, Scalar::Literal(scale)),
            y.scalar_expr(ScalarOp::Mul, Scalar::Literal(scale)),
            m,
            n,
        ),
{
    let s = Scalar::Literal(scale);
    let p = x.scalar_expr(ScalarOp::Mul, s);
    let q = y.scalar_expr(ScalarOp::Mul, s);
    crate::number::lemma_small_numbers();
    assert(p.shape == q.shape) by {
        reveal(Tensor::scalar_expr);
    }
    assert forall|idx: Seq<int>| #[trigger]
        crate::value::value(p, idx, m) == crate::value::value(q, idx, n) by {
        crate::value::lemma_scalar_value(x, ScalarOp::Mul, s, idx, m);
        crate::value::lemma_scalar_value(y, ScalarOp::Mul, s, idx, n);
        let a = crate::value::value(x, idx, m);
        let b = crate::value::value(y, idx, n);
        assert(a * 0real == 0real) by (nonlinear_arith);
        assert(b * 0real == 0real) by (nonlinear_arith);
    }
    reveal(crate::alike::alike);
}

/// Noise of scale zero is zero.
proof fn lemma_silence_is_zero(x: Tensor, zeros: Tensor, scale: Real, m: Reading, n: Reading)
    requires
        scale.bits == ZERO,
        zeros == Tensor::zeros_expr(zeros.shape),
        x.shape == zeros.shape,
    ensures
        crate::alike::alike(
            x.scalar_expr(ScalarOp::Mul, Scalar::Literal(scale)),
            zeros,
            m,
            n,
        ),
{
    let s = Scalar::Literal(scale);
    let p = x.scalar_expr(ScalarOp::Mul, s);
    crate::number::lemma_small_numbers();
    assert(p.shape == x.shape) by {
        reveal(Tensor::scalar_expr);
    }
    assert forall|idx: Seq<int>| #[trigger]
        crate::value::value(p, idx, m) == crate::value::value(zeros, idx, n) by {
        crate::value::lemma_scalar_value(x, ScalarOp::Mul, s, idx, m);
        crate::value::lemma_leaf_value(
            crate::tensor::Kind::Float,
            zeros.shape,
            crate::tensor::Op::Zeros,
            idx,
            n,
        );
        let a = crate::value::value(x, idx, m);
        assert(a * 0real == 0real) by (nonlinear_arith);
    }
    reveal(crate::alike::alike);
}

proof fn lemma_alike_edges(
    x: Tensor,
    y: Tensor,
    min_size: Real,
    low: Scalar,
    high: Scalar,
    m: Reading,
    n: Reading,
)
    requires
        m.same_but_noise(n),
        crate::alike::alike(x, y, m, n),
    ensures
        crate::alike::alike(
            crate::spline::edges_expr(x, min_size, low, high),
            crate::spline::edges_expr(y, min_size, low, high),
            m,
            n,
        ),
{
    broadcast use crate::alike::group_alike;

}

proof fn lemma_alike_sizes(x: Tensor, y: Tensor, m: Reading, n: Reading)
    requires
        m.same_but_noise(n),
        crate::alike::alike(x, y, m, n),
    ensures
        crate::alike::alike(crate::spline::sizes_expr(x), crate::spline::sizes_expr(y), m, n),
{
    broadcast use crate::alike::group_alike;

}

proof fn lemma_alike_searchsorted(
    x: Tensor,
    x_: Tensor,
    y: Tensor,
    y_: Tensor,
    eps: u64,
    m: Reading,
    n: Reading,
)
    requires
        m.same_but_noise(n),
        crate::alike::alike(x, x_, m, n),
        crate::alike::alike(y, y_, m, n),
    ensures
        crate::alike::alike(
            crate::spline::searchsorted_expr(x, y, eps),
            crate::spline::searchsorted_expr(x_, y_, eps),
            m,
            n,
        ),
{
    broadcast use crate::alike::group_alike;

    let last = (x.at(1) - 1) as usize;
    let added = Scalar::literal_expr(eps);
    let (a, a_) = (
        x.slice_expr(1, last, x.at(1)).scalar_expr(ScalarOp::Add, added),
        x_.slice_expr(1, last, x_.at(1)).scalar_expr(ScalarOp::Add, added),
    );
    assert(crate::alike::alike(a, a_, m, n));
    let (b, b_) = (x.slice_assign_expr(1, last, a), x_.slice_assign_expr(1, last, a_));
    assert(crate::alike::alike(b, b_, m, n));
    let (c, c_) = (y.unsqueeze_expr(1), y_.unsqueeze_expr(1));
    assert(crate::alike::alike(c, c_, m, n));
    let (d, d_) = (
        c.binary_expr(BinaryOp::GreaterEqual, b).unary_expr(UnaryOp::ToInt).sum_dim_expr(1),
        c_.binary_expr(BinaryOp::GreaterEqual, b_).unary_expr(UnaryOp::ToInt).sum_dim_expr(1),
    );
    assert(crate::alike::alike(d, d_, m, n));
}

proof fn lemma_alike_picked(
    x: Tensor,
    x_: Tensor,
    y: Tensor,
    y_: Tensor,
    m: Reading,
    n: Reading,
)
    requires
        m.same_but_noise(n),
        crate::alike::alike(x, x_, m, n),
        crate::alike::alike(y, y_, m, n),
    ensures
        crate::alike::alike(
            crate::spline::picked_expr(x, y),
            crate::spline::picked_expr(x_, y_),
            m,
            n,
        ),
{
    broadcast use crate::alike::group_alike;

    let (a, a_) = (
        x.gather_expr(1, y).slice_expr(1, 0, 1),
        x_.gather_expr(1, y_).slice_expr(1, 0, 1),
    );
    assert(crate::alike::alike(a, a_, m, n));
}

impl Segment {
    /// Whether two segments are alike in all parts.
    pub open spec fn alike(self, other: Segment, m: Reading, n: Reading) -> bool {
        &&& crate::alike::alike(self.cumwidths, other.cumwidths, m, n)
        &&& crate::alike::alike(self.bin_widths, other.bin_widths, m, n)
        &&& crate::alike::alike(self.cumheights, other.cumheights, m, n)
        &&& crate::alike::alike(self.heights, other.heights, m, n)
        &&& crate::alike::alike(self.delta, other.delta, m, n)
        &&& crate::alike::alike(self.derivatives, other.derivatives, m, n)
        &&& crate::alike::alike(self.derivatives_plus_one, other.derivatives_plus_one, m, n)
    }

    proof fn lemma_alike_value(
        self,
        other: Segment,
        x: Tensor,
        y: Tensor,
        m: Reading,
        n: Reading,
    )
        requires
            m.same_but_noise(n),
            self.alike(other, m, n),
            crate::alike::alike(x, y, m, n),
        ensures
            crate::alike::alike(self.value_expr(x), other.value_expr(y), m, n),
    {
        broadcast use crate::alike::group_alike;

    }

    proof fn lemma_alike_root(
        self,
        other: Segment,
        x: Tensor,
        y: Tensor,
        m: Reading,
        n: Reading,
    )
        requires
            m.same_but_noise(n),
            self.alike(other, m, n),
            crate::alike::alike(x, y, m, n),
        ensures
            crate::alike::alike(self.root_expr(x), other.root_expr(y), m, n),
    {
        broadcast use crate::alike::group_alike;

    }
}

impl SplineBox {
    proof fn lemma_alike_segment(
        self,
        x: Tensor,
        x_: Tensor,
        widths: Tensor,
        widths_: Tensor,
        heights: Tensor,
        heights_: Tensor,
        slopes: Tensor,
        slopes_: Tensor,
        inverse: bool,
        m: Reading,
        n: Reading,
    )
        requires
            m.same_but_noise(n),
            crate::alike::alike(x, x_, m, n),
            crate::alike::alike(widths, widths_, m, n),
            crate::alike::alike(heights, heights_, m, n),
            crate::alike::alike(slopes, slopes_, m, n),
        ensures
            self.segment_expr(x, widths, heights, slopes, inverse).alike(
                self.segment_expr(x_, widths_, heights_, slopes_, inverse),
                m,
                n,
            ),
    {
        let w = crate::spline::edges_expr(widths, self.min_bin_width, self.left, self.right);
        let w_ = crate::spline::edges_expr(widths_, self.min_bin_width, self.left, self.right);
        let h = crate::spline::edges_expr(heights, self.min_bin_height, self.bottom, self.top);
        let h_ = crate::spline::edges_expr(heights_, self.min_bin_height, self.bottom, self.top);
        lemma_alike_edges(widths, widths_, self.min_bin_width, self.left, self.right, m, n);
        lemma_alike_edges(heights, heights_, self.min_bin_height, self.bottom, self.top, m, n);
        let (v, v_) = (crate::spline::sizes_expr(w), crate::spline::sizes_expr(w_));
        let (g, g_) = (crate::spline::sizes_expr(h), crate::spline::sizes_expr(h_));
        lemma_alike_sizes(w, w_, m, n);
        lemma_alike_sizes(h, h_, m, n);
        let least = Scalar::Literal(self.min_derivative);
        let d = slopes.unary_expr(UnaryOp::Softplus).scalar_expr(ScalarOp::Add, least);
        let d_ = slopes_.unary_expr(UnaryOp::Softplus).scalar_expr(ScalarOp::Add, least);
        let (e, e_) = if inverse {
            (h, h_)
        } else {
            (w, w_)
        };
        lemma_alike_searchsorted(e, e_, x, x_, EDGE_TOLERANCE, m, n);
        let i = crate::spline::searchsorted_expr(e, x, EDGE_TOLERANCE).unsqueeze_expr(1);
        let i_ = crate::spline::searchsorted_expr(e_, x_, EDGE_TOLERANCE).unsqueeze_expr(1);
        let (o, o_) = (g.over_expr(v), g_.over_expr(v_));
        let (f, f_) = (d.slice_expr(1, 1, d.at(1)), d_.slice_expr(1, 1, d_.at(1)));
        assert(crate::alike::alike(d, d_, m, n)) by {
            broadcast use crate::alike::group_alike;

        }
        assert(crate::alike::alike(i, i_, m, n) && crate::alike::alike(o, o_, m, n)
            && crate::alike::alike(f, f_, m, n)) by {
            broadcast use crate::alike::group_alike;

        }
        lemma_alike_picked(w, w_, i, i_, m, n);
        lemma_alike_picked(v, v_, i, i_, m, n);
        lemma_alike_picked(h, h_, i, i_, m, n);
        lemma_alike_picked(g, g_, i, i_, m, n);
        lemma_alike_picked(o, o_, i, i_, m, n);
        lemma_alike_picked(d, d_, i, i_, m, n);
        lemma_alike_picked(f, f_, i, i_, m, n);
    }

    pub proof fn lemma_alike_spline(
        self,
        x: Tensor,
        x_: Tensor,
        widths: Tensor,
        widths_: Tensor,
        heights: Tensor,
        heights_: Tensor,
        slopes: Tensor,
        slopes_: Tensor,
        inverse: bool,
        m: Reading,
        n: Reading,
    )
        requires
            m.same_but_noise(n),
            crate::alike::alike(x, x_, m, n),
            crate::alike::alike(widths, widths_, m, n),
            crate::alike::alike(heights, heights_, m, n),
            crate::alike::alike(slopes, slopes_, m, n),
        ensures
            crate::alike::alike(
                self.spline_expr(x, widths, heights, slopes, inverse).0,
                self.spline_expr(x_, widths_, heights_, slopes_, inverse).0,
                m,
                n,
            ),
    {
        broadcast use crate::alike::group_alike;

        self.lemma_alike_segment(
            x,
            x_,
            widths,
            widths_,
            heights,
            heights_,
            slopes,
            slopes_,
            inverse,
            m,
            n,
        );
        let s = self.segment_expr(x, widths, heights, slopes, inverse);
        let s_ = self.segment_expr(x_, widths_, heights_, slopes_, inverse);
        if inverse {
            s.lemma_alike_root(s_, x, x_, m, n);
        } else {
            let t = x.minus_expr(s.cumwidths).over_expr(s.bin_widths);
            let t_ = x_.minus_expr(s_.cumwidths).over_expr(s_.bin_widths);
            s.lemma_alike_value(s_, t, t_, m, n);
        }
    }
}

/// Splines with tails that are alike yield the same values of inputs that are alike.
proof fn lemma_alike_unconstrained(
    x: Tensor,
    x_: Tensor,
    widths: Tensor,
    widths_: Tensor,
    heights: Tensor,
    heights_: Tensor,
    slopes: Tensor,
    slopes_: Tensor,
    inverse: bool,
    bounds: SplineBox,
    tail_bound: Real,
    m: Reading,
    n: Reading,
)
    requires
        m.same_but_noise(n),
        crate::alike::alike(x, x_, m, n),
        crate::alike::alike(widths, widths_, m, n),
        crate::alike::alike(heights, heights_, m, n),
        crate::alike::alike(slopes, slopes_, m, n),
    ensures
        crate::alike::alike(
            crate::spline::unconstrained_expr(
                x,
                widths,
                heights,
                slopes,
                inverse,
                bounds,
                tail_bound,
            ).0,
            crate::spline::unconstrained_expr(
                x_,
                widths_,
                heights_,
                slopes_,
                inverse,
                bounds,
                tail_bound,
            ).0,
            m,
            n,
        ),
{
    broadcast use crate::alike::group_alike;

    let (i, i_) = (
        crate::spline::inside_expr(x, tail_bound),
        crate::spline::inside_expr(x_, tail_bound),
    );
    let (d, d_) = (
        crate::spline::tailed_expr(slopes, bounds.min_derivative),
        crate::spline::tailed_expr(slopes_, bounds.min_derivative),
    );
    assert(crate::alike::alike(i, i_, m, n));
    let (c, c_) = (slopes.pad_expr(3, 1, 1), slopes_.pad_expr(3, 1, 1));
    assert(crate::alike::alike(c, c_, m, n));
    assert(crate::alike::alike(d, d_, m, n));
    let (j, j_) = (i.unsqueeze_expr(3), i_.unsqueeze_expr(3));
    let (o, o_) = (x.mask_where_expr(i, x), x_.mask_where_expr(i_, x_));
    assert(crate::alike::alike(o, o_, m, n));
    let (p, p_) = (
        x.mask_where_expr(i, x).squeeze1_expr(),
        x_.mask_where_expr(i_, x_).squeeze1_expr(),
    );
    let (q, q_) = (
        widths.mask_where_expr(j, widths).squeeze2_expr(),
        widths_.mask_where_expr(j_, widths_).squeeze2_expr(),
    );
    let (r, r_) = (
        heights.mask_where_expr(j, heights).squeeze2_expr(),
        heights_.mask_where_expr(j_, heights_).squeeze2_expr(),
    );
    let (s, s_) = (
        d.mask_where_expr(j, d).squeeze2_expr(),
        d_.mask_where_expr(j_, d_).squeeze2_expr(),
    );
    assert(crate::alike::alike(j, j_, m, n));
    assert(crate::alike::alike(
        widths.mask_where_expr(j, widths),
        widths_.mask_where_expr(j_, widths_),
        m,
        n,
    ));
    assert(crate::alike::alike(
        heights.mask_where_expr(j, heights),
        heights_.mask_where_expr(j_, heights_),
        m,
        n,
    ));
    assert(crate::alike::alike(d.mask_where_expr(j, d), d_.mask_where_expr(j_, d_), m, n));
    assert(crate::alike::alike(p, p_, m, n));
    assert(crate::alike::alike(q, q_, m, n));
    assert(crate::alike::alike(r, r_, m, n));
    assert(crate::alike::alike(s, s_, m, n));
    bounds.lemma_alike_spline(p, p_, q, q_, r, r_, s, s_, inverse, m, n);
}

impl ElementwiseAffine {
    proof fn lemma_alike(
        self,
        x: Tensor,
        y: Tensor,
        mask: Tensor,
        mask_: Tensor,
        m: Reading,
        n: Reading,
    )
        requires
            m.same_but_noise(n),
            crate::alike::alike(x, y, m, n),
            crate::alike::alike(mask, mask_, m, n),
        ensures
            crate::alike::alike(
                self.forward_expr(x, mask, true).0,
                self.forward_expr(y, mask_, true).0,
                m,
                n,
            ),
    {
        broadcast use crate::alike::group_alike;

    }
}

impl ConvFlow {
    proof fn lemma_alike(
        self,
        x: Tensor,
        y: Tensor,
        mask: Tensor,
        mask_: Tensor,
        g: Option<Tensor>,
        g_: Option<Tensor>,
        reverse: bool,
        m: Reading,
        n: Reading,
    )
        requires
            m.same_but_noise(n),
            crate::alike::alike(x, y, m, n),
            crate::alike::alike(mask, mask_, m, n),
            crate::alike::both_alike(g, g_, m, n),
        ensures
            crate::alike::alike(
                self.forward_expr(x, mask, g, reverse).0,
                self.forward_expr(y, mask_, g_, reverse).0,
                m,
                n,
            ),
    {
        broadcast use {crate::alike::group_alike, crate::readings::group_layers};

        let half = self.half_channels;
        let (x0, y0) = (x.slice_expr(1, 0, half), y.slice_expr(1, 0, half));
        let (x1, y1) = (
            x.slice_expr(1, half, (2 * half) as usize),
            y.slice_expr(1, half, (2 * half) as usize),
        );
        assert(crate::alike::alike(x0, y0, m, n));
        let (h, k) = (self.pre.forward_expr(x0), self.pre.forward_expr(y0));
        assert(crate::alike::alike(h, k, m, n));
        self.convs.lemma_alike(h, k, mask, mask_, g, g_, m, n);
        let (h, k) = (self.convs.forward_expr(h, mask, g), self.convs.forward_expr(k, mask_, g_));
        let (h, k) = (
            self.proj.forward_expr(h).times_expr(mask),
            self.proj.forward_expr(k).times_expr(mask_),
        );
        assert(crate::alike::alike(h, k, m, n));
        let parts = Shape::D4(x0.at(0), x0.at(1), (self.num_bins * 3 - 1) as usize, x0.at(2));
        let (h, k) = (
            h.reshape_expr(parts).swap_dims_expr(2, 3),
            k.reshape_expr(parts).swap_dims_expr(2, 3),
        );
        assert(crate::alike::alike(h, k, m, n));
        let (w, h, d) = self.splines_expr(x0, mask, g);
        let (w_, h_, d_) = self.splines_expr(y0, mask_, g_);
        assert(crate::alike::alike(w, w_, m, n));
        assert(crate::alike::alike(h, h_, m, n));
        assert(crate::alike::alike(d, d_, m, n));
        let bounds = crate::spline::symmetric(
            self.tail_bound,
            Real { bits: crate::spline::DEFAULT_MIN_BIN_WIDTH },
            Real { bits: crate::spline::DEFAULT_MIN_BIN_HEIGHT },
            Real { bits: crate::spline::DEFAULT_MIN_DERIVATIVE },
        );
        lemma_alike_unconstrained(
            x1,
            y1,
            w,
            w_,
            h,
            h_,
            d,
            d_,
            reverse,
            bounds,
            self.tail_bound,
            m,
            n,
        );
    }
}

impl StochasticDurationPredictor {
    proof fn lemma_alike_after(
        self,
        k: nat,
        z: Tensor,
        z_: Tensor,
        mask: Tensor,
        x: Tensor,
        m: Reading,
        n: Reading,
    )
        requires
            m.same_but_noise(n),
            crate::alike::alike(z, z_, m, n),
            crate::alike::alike(mask, mask, m, n),
            crate::alike::alike(x, x, m, n),
        ensures
            crate::alike::alike(
                self.after_expr(k, z, mask, x),
                self.after_expr(k, z_, mask, x),
                m,
                n,
            ),
        decreases k,
    {
        broadcast use crate::alike::group_alike;

        if k > 0 {
            self.lemma_alike_after((k - 1) as nat, z, z_, mask, x, m, n);
            let a = self.after_expr((k - 1) as nat, z, mask, x);
            let b = self.after_expr((k - 1) as nat, z_, mask, x);
            match self.step(k - 1) {
                StochasticDurationPredictorLayers::ElementwiseAffine(layer) => {
                    layer.lemma_alike(a, b, mask, mask, m, n);
                },
                StochasticDurationPredictorLayers::ConvFlow(layer) => {
                    layer.lemma_alike(a, b, mask, mask, Some(x), Some(x), true, m, n);
                },
                StochasticDurationPredictorLayers::Flip(_) => {},
            }
        }
    }

    /// With a noise scale of zero the durations are those that the steps make of zeros. They do not
    /// depend on what is drawn, where the encoding, its mask and its condition do not.
    pub proof fn lemma_silent(
        self,
        x: Tensor,
        x_mask: Tensor,
        g: Option<Tensor>,
        noise_scale: Real,
        m: Reading,
        n: Reading,
    )
        requires
            noise_scale.bits == ZERO,
            m.same_but_noise(n),
            crate::alike::alike(x, x, m, n),
            crate::alike::alike(x_mask, x_mask, m, n),
            crate::alike::both_alike(g, g, m, n),
        ensures
            crate::alike::alike(
                self.forward_expr(x, x_mask, g, noise_scale),
                self.forward_expr(x, x_mask, g, noise_scale),
                m,
                n,
            ),
            ({
                let condition = self.condition_expr(x, x_mask, g);
                let zeros = Tensor::zeros_expr(Shape::D3(condition.at(0), 2, condition.at(2)));
                crate::alike::alike(
                    self.forward_expr(x, x_mask, g, noise_scale),
                    self.after_expr(
                        (self.flows.len() - 1) as nat,
                        zeros,
                        x_mask,
                        condition,
                    ).slice_expr(1, 0, 1),
                    m,
                    n,
                )
            }),
    {
        broadcast use {crate::alike::group_alike, crate::readings::group_layers};

        let h = crate::wavenet::DDSConv::conditioned_expr(self.pre.forward_expr(x), g);
        assert(crate::alike::alike(h, h, m, n));
        self.convs.lemma_alike(h, h, x_mask, x_mask, g, g, m, n);
        let condition = self.condition_expr(x, x_mask, g);
        assert(crate::alike::alike(condition, condition, m, n));
        let noise = Tensor::noise_expr(
            Noise::Duration,
            Shape::D3(condition.at(0), 2, condition.at(2)),
        );
        let z = noise.scalar_expr(ScalarOp::Mul, Scalar::Literal(noise_scale));
        lemma_silenced(noise, noise, noise_scale, m, n);
        let steps = (self.flows.len() - 1) as nat;
        self.lemma_alike_after(steps, z, z, x_mask, condition, m, n);
        let zeros = Tensor::zeros_expr(Shape::D3(condition.at(0), 2, condition.at(2)));
        assert(zeros.shape == noise.shape && zeros == Tensor::zeros_expr(zeros.shape)) by {
            reveal(Tensor::leaf_expr);
        }
        lemma_silence_is_zero(noise, zeros, noise_scale, m, n);
        self.lemma_alike_after(steps, z, zeros, x_mask, condition, m, n);
    }
}

} // verus!

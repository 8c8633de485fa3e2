//! What the duration predictor makes of encoded phonemes, in real numbers.

use crate::flow::ElementwiseAffine;
use crate::number::{Real, Scalar};
use crate::predictor::{ConvFlow, StochasticDurationPredictor};
use crate::shape::Shape;
use crate::tensor::{BinaryOp, Noise, ScalarOp, Tensor, UnaryOp};
use crate::value::Reading;
use crate::wavenet::DDSConv;
use vstd::prelude::*;

verus! {

/// The value of a condition; zero where there is none.
pub open spec fn given(g: Option<Tensor>, b: int, c: int, t: int, m: Reading) -> real {
    match g {
        Some(g) => crate::signals::at(g, b, c, t, m),
        None => 0real,
    }
}

impl DDSConv {
    /// Whether a signal can be sent through under a mask and a condition.
    pub open spec fn takes(self, x: Tensor, x_mask: Tensor, g: Option<Tensor>) -> bool {
        &&& x.shape.rank() == 3
        &&& self.wf(x.at(1))
        &&& self.takes_length(x.at(2))
        &&& x_mask.shape.rank() == 3
        &&& x.shape.joined(x_mask.shape) == x.shape
        &&& g matches Some(g) ==> g.shape.rank() == 3 && x.shape.joined(g.shape) == x.shape
    }

    proof fn lemma_layer_shape(self, i: int, x: Tensor, x_mask: Tensor)
        requires
            self.takes(x, x_mask, None),
            0 <= i < self.n_layers,
        ensures
            ({
                let mid = self.norms_1@[i].over_channels_expr(
                    self.convs_sep@[i].forward_expr(x.times_expr(x_mask)),
                ).unary_expr(UnaryOp::Gelu);
                let last = self.norms_2@[i].over_channels_expr(
                    self.convs_1x1@[i].forward_expr(mid),
                ).unary_expr(UnaryOp::Gelu);
                &&& x.times_expr(x_mask).shape == x.shape
                &&& mid.shape == x.shape
                &&& last.shape == x.shape
                &&& self.drop.forward_expr(last).shape == x.shape
            }),
    {
        assert(self.layer_fits(i, x.at(1)));
        assert(self.convs_sep@[i].room_for(x.at(2)));
        let masked = x.times_expr(x_mask);
        assert(masked.shape == x.shape) by {
            reveal(Tensor::binary_expr);
        }
        self.convs_sep@[i].lemma_shape(masked);
        let y = self.norms_1@[i].over_channels_expr(
            self.convs_sep@[i].forward_expr(masked),
        ).unary_expr(UnaryOp::Gelu);
        assert(y.shape == x.shape) by {
            reveal(Tensor::swap_dims_expr);
            reveal(Tensor::layer_norm_expr);
            reveal(Tensor::unary_expr);
        }
        self.convs_1x1@[i].lemma_shape(y);
        reveal(Tensor::swap_dims_expr);
        reveal(Tensor::layer_norm_expr);
        reveal(Tensor::unary_expr);
        reveal(Tensor::dropout_expr);
    }

    /// A stack of separable convolutions in real numbers. Each layer adds to the signal what comes
    /// of it under the mask: a convolution of each channel for itself, normalised, through the
    /// error unit, and a convolution of single positions, normalised, through the error unit. The
    /// condition is added before the first layer, and the mask is applied after the last.
    pub proof fn lemma_value(
        self,
        x: Tensor,
        x_mask: Tensor,
        g: Option<Tensor>,
        m: Reading,
    ) -> (r: (Seq<Tensor>, Seq<Tensor>, Seq<Tensor>))
        requires
            self.takes(x, x_mask, g),
        ensures
            ({
                let (xs, ins, mids) = r;
                let n = self.n_layers;
                &&& xs.len() == n + 1 && ins.len() == n && mids.len() == n
                &&& forall|i: int| 0 <= i <= n ==> (#[trigger] xs[i]).shape == x.shape
                &&& forall|i: int| 0 <= i < n ==> (#[trigger] ins[i]).shape == x.shape
                &&& forall|i: int| 0 <= i < n ==> (#[trigger] mids[i]).shape == x.shape
                &&& forall|b: int, c: int, t: int| #[trigger]
                    crate::signals::at(xs[0], b, c, t, m) == crate::signals::at(x, b, c, t, m)
                        + given(g, b, c, t, m)
                &&& forall|i: int, b: int, c: int, t: int|
                    0 <= i < n ==> #[trigger] crate::signals::at(ins[i], b, c, t, m)
                        == crate::signals::at(xs[i], b, c, t, m) * crate::signals::at(
                        x_mask,
                        b,
                        c,
                        t,
                        m,
                    )
                &&& forall|i: int, b: int, c: int, t: int|
                    0 <= i < n ==> #[trigger] crate::signals::at(mids[i], b, c, t, m) == (m.gelu)(
                        crate::signals::at(
                            self.norms_1@[i].over_channels_expr(
                                self.convs_sep@[i].forward_expr(ins[i]),
                            ),
                            b,
                            c,
                            t,
                            m,
                        ),
                    )
                &&& forall|i: int, b: int, c: int, t: int|
                    1 <= i <= n ==> #[trigger] crate::signals::at(xs[i], b, c, t, m)
                        == crate::signals::at(xs[i - 1], b, c, t, m) + (m.gelu)(
                        crate::signals::at(
                            self.norms_2@[i - 1].over_channels_expr(
                                self.convs_1x1@[i - 1].forward_expr(mids[i - 1]),
                            ),
                            b,
                            c,
                            t,
                            m,
                        ),
                    )
                &&& self.forward_expr(x, x_mask, g).shape == x.shape
                &&& forall|b: int, c: int, t: int| #[trigger]
                    crate::signals::at(self.forward_expr(x, x_mask, g), b, c, t, m)
                        == crate::signals::at(xs[n as int], b, c, t, m) * crate::signals::at(
                        x_mask,
                        b,
                        c,
                        t,
                        m,
                    )
            }),
    {
        let n = self.n_layers as nat;
        let start = DDSConv::conditioned_expr(x, g);
        let xs = Seq::new(n + 1, |i: int| self.after_expr(i as nat, start, x_mask));
        let ins = Seq::new(n, |i: int| xs[i].times_expr(x_mask));
        let mids = Seq::new(
            n,
            |i: int|
                self.norms_1@[i].over_channels_expr(
                    self.convs_sep@[i].forward_expr(ins[i]),
                ).unary_expr(UnaryOp::Gelu),
        );
        assert(start.shape == x.shape) by {
            reveal(Tensor::binary_expr);
        }
        assert forall|b: int, c: int, t: int| #[trigger]
            crate::signals::at(xs[0], b, c, t, m) == crate::signals::at(x, b, c, t, m) + given(
                g,
                b,
                c,
                t,
                m,
            ) by {
            if let Some(g) = g {
                crate::value::lemma_binary_value(x, BinaryOp::Add, g, seq![b, c, t], m);
            }
        }
        assert forall|i: int| 0 <= i <= n implies (#[trigger] xs[i]).shape == x.shape by {
            self.lemma_after_shape(i as nat, start, x_mask);
        }
        assert forall|i: int| 0 <= i < n implies (#[trigger] ins[i]).shape == x.shape by {
            assert(xs[i].shape == x.shape);
            self.lemma_layer_shape(i, xs[i], x_mask);
        }
        assert forall|i: int| 0 <= i < n implies (#[trigger] mids[i]).shape == x.shape by {
            assert(xs[i].shape == x.shape);
            self.lemma_layer_shape(i, xs[i], x_mask);
        }
        assert forall|i: int, b: int, c: int, t: int| 0 <= i < n implies #[trigger]
        crate::signals::at(ins[i], b, c, t, m) == crate::signals::at(xs[i], b, c, t, m)
            * crate::signals::at(x_mask, b, c, t, m) by {
            assert(xs[i].shape == x.shape);
            crate::value::lemma_binary_value(
                xs[i],
                BinaryOp::Mul,
                x_mask,
                seq![b, c, t],
                m,
            );
        }
        assert forall|i: int, b: int, c: int, t: int| 0 <= i < n implies #[trigger]
        crate::signals::at(mids[i], b, c, t, m) == (m.gelu)(
            crate::signals::at(
                self.norms_1@[i].over_channels_expr(self.convs_sep@[i].forward_expr(ins[i])),
                b,
                c,
                t,
                m,
            ),
        ) by {
            crate::value::lemma_unary_value(
                self.norms_1@[i].over_channels_expr(self.convs_sep@[i].forward_expr(ins[i])),
                UnaryOp::Gelu,
                seq![b, c, t],
                m,
            );
        }
        assert forall|i: int, b: int, c: int, t: int| 1 <= i <= n implies #[trigger]
        crate::signals::at(xs[i], b, c, t, m) == crate::signals::at(xs[i - 1], b, c, t, m) + (
        m.gelu)(
            crate::signals::at(
                self.norms_2@[i - 1].over_channels_expr(
                    self.convs_1x1@[i - 1].forward_expr(mids[i - 1]),
                ),
                b,
                c,
                t,
                m,
            ),
        ) by {
            let k = i - 1;
            assert(xs[k].shape == x.shape);
            self.lemma_layer_shape(k, xs[k], x_mask);
            let normed = self.norms_2@[k].over_channels_expr(
                self.convs_1x1@[k].forward_expr(mids[k]),
            );
            let last = normed.unary_expr(UnaryOp::Gelu);
            assert(ins[k] == xs[k].times_expr(x_mask));
            assert(xs[i] == xs[k].plus_expr(self.drop.forward_expr(last)));
            crate::value::lemma_binary_value(
                xs[k],
                BinaryOp::Add,
                self.drop.forward_expr(last),
                seq![b, c, t],
                m,
            );
            self.drop.lemma_value(last, seq![b, c, t], m);
            crate::value::lemma_unary_value(normed, UnaryOp::Gelu, seq![b, c, t], m);
        }
        assert(xs[n as int].shape == x.shape);
        assert(self.forward_expr(x, x_mask, g).shape == x.shape) by {
            reveal(Tensor::binary_expr);
        }
        assert forall|b: int, c: int, t: int| #[trigger]
            crate::signals::at(self.forward_expr(x, x_mask, g), b, c, t, m) == crate::signals::at(
                xs[n as int],
                b,
                c,
                t,
                m,
            ) * crate::signals::at(x_mask, b, c, t, m) by {
            crate::value::lemma_binary_value(
                xs[n as int],
                BinaryOp::Mul,
                x_mask,
                seq![b, c, t],
                m,
            );
        }
        (xs, ins, mids)
    }
}

impl StochasticDurationPredictor {
    /// The predictor in real numbers. The steps depend on the encoded phonemes as the first
    /// convolution, the stack of separable ones and the last convolution make them, under the
    /// mask. Two channels of scaled noise go in reverse through all steps but the second, and the
    /// first channel of what comes out tells the durations.
    pub proof fn lemma_value(
        self,
        x: Tensor,
        x_mask: Tensor,
        g: Option<Tensor>,
        noise_scale: Real,
        m: Reading,
    ) -> (r: (Tensor, Tensor, Seq<Tensor>))
        requires
            self.wf(x.at(1)),
            self.takes(x.at(0), x.at(2)),
            x.shape.rank() == 3,
            x_mask.shape.rank() == 3,
            x_mask.at(0) == 1 || x_mask.at(0) == x.at(0),
            x_mask.at(1) == 1,
            x_mask.at(2) == 1 || x_mask.at(2) == x.at(2),
            g matches Some(g) ==> g.covers(Shape::D3(x.at(0), self.filter_channels(), x.at(2))),
        ensures
            ({
                let (entry, told, zs) = r;
                let n = self.flows.len();
                let hidden = Shape::D3(x.at(0), self.filter_channels(), x.at(2));
                &&& entry.shape == hidden
                &&& forall|b: int, c: int, t: int| #[trigger]
                    crate::signals::at(entry, b, c, t, m) == crate::signals::at(
                        self.pre.forward_expr(x),
                        b,
                        c,
                        t,
                        m,
                    ) + given(g, b, c, t, m)
                &&& told.shape == hidden
                &&& forall|b: int, c: int, t: int| #[trigger]
                    crate::signals::at(told, b, c, t, m) == crate::signals::at(
                        self.proj.forward_expr(self.convs.forward_expr(entry, x_mask, g)),
                        b,
                        c,
                        t,
                        m,
                    ) * crate::signals::at(x_mask, b, c, t, m)
                &&& zs.len() == n
                &&& forall|i: int|
                    0 <= i < n ==> (#[trigger] zs[i]).shape == Shape::D3(x.at(0), 2, x.at(2))
                &&& forall|b: int, c: int, t: int|
                    0 <= b < x.at(0) && 0 <= c < 2 && 0 <= t < x.at(2) ==> #[trigger]
                    crate::signals::at(zs[0], b, c, t, m) == (m.noise)(
                        Noise::Duration,
                        seq![b, c, t],
                    ) * crate::number::double(noise_scale.bits)
                &&& forall|i: int|
                    1 <= i < n ==> #[trigger] zs[i] == self.flows@[if i < n - 1 {
                        n - i
                    } else {
                        0
                    }].forward_expr(zs[i - 1], x_mask, Some(told), true).0
                &&& self.forward_expr(x, x_mask, g, noise_scale).shape == Shape::D3(
                    x.at(0),
                    1,
                    x.at(2),
                )
                &&& forall|b: int, t: int|
                    0 <= b < x.at(0) && 0 <= t < x.at(2) ==> #[trigger] crate::signals::at(
                        self.forward_expr(x, x_mask, g, noise_scale),
                        b,
                        0,
                        t,
                        m,
                    ) == crate::signals::at(zs[n - 1], b, 0, t, m)
            }),
    {
        let n = self.flows.len() as nat;
        let entry = DDSConv::conditioned_expr(self.pre.forward_expr(x), g);
        let told = self.condition_expr(x, x_mask, g);
        self.pre.lemma_shape(x);
        self.lemma_condition_shape(x, x_mask, g);
        let hidden = Shape::D3(x.at(0), self.filter_channels(), x.at(2));
        assert(entry.shape == hidden) by {
            reveal(Tensor::binary_expr);
        }
        assert forall|b: int, c: int, t: int| #[trigger]
            crate::signals::at(entry, b, c, t, m) == crate::signals::at(
                self.pre.forward_expr(x),
                b,
                c,
                t,
                m,
            ) + given(g, b, c, t, m) by {
            if let Some(g) = g {
                crate::value::lemma_binary_value(
                    self.pre.forward_expr(x),
                    BinaryOp::Add,
                    g,
                    seq![b, c, t],
                    m,
                );
            }
        }
        assert forall|b: int, c: int, t: int| #[trigger]
            crate::signals::at(told, b, c, t, m) == crate::signals::at(
                self.proj.forward_expr(self.convs.forward_expr(entry, x_mask, g)),
                b,
                c,
                t,
                m,
            ) * crate::signals::at(x_mask, b, c, t, m) by {
            let y = self.proj.forward_expr(self.convs.forward_expr(entry, x_mask, g));
            assert(y.shape.rank() == 3) by {
                reveal(Tensor::conv1d_expr);
            }
            crate::value::lemma_binary_value(y, BinaryOp::Mul, x_mask, seq![b, c, t], m);
        }
        let shape = Shape::D3(told.at(0), 2, told.at(2));
        let drawn = Tensor::noise_expr(Noise::Duration, shape);
        let z = drawn.scalar_expr(ScalarOp::Mul, Scalar::Literal(noise_scale));
        assert(z.shape == shape && drawn.shape == shape) by {
            reveal(Tensor::leaf_expr);
            reveal(Tensor::scalar_expr);
        }
        let zs = Seq::new(n, |i: int| self.after_expr(i as nat, z, x_mask, told));
        assert(shape.joined(x_mask.shape) == shape);
        assert forall|i: int| 0 <= i < n implies (#[trigger] zs[i]).shape == Shape::D3(
            x.at(0),
            2,
            x.at(2),
        ) by {
            self.lemma_shape(i as nat, z, x_mask, told);
        }
        assert forall|b: int, c: int, t: int|
            0 <= b < x.at(0) && 0 <= c < 2 && 0 <= t < x.at(2) implies #[trigger]
        crate::signals::at(zs[0], b, c, t, m) == (m.noise)(Noise::Duration, seq![b, c, t])
            * crate::number::double(noise_scale.bits) by {
            crate::value::lemma_scalar_value(
                drawn,
                ScalarOp::Mul,
                Scalar::Literal(noise_scale),
                seq![b, c, t],
                m,
            );
            reveal(Tensor::leaf_expr);
            assert(crate::element::within(shape, seq![b, c, t]));
            crate::element::lemma_unstretched(shape, seq![b, c, t]);
        }
        assert forall|i: int| 1 <= i < n implies #[trigger] zs[i] == self.flows@[if i < n - 1 {
            n - i
        } else {
            0
        }].forward_expr(zs[i - 1], x_mask, Some(told), true).0 by {
            assert(self.step(i - 1) == self.flows@[if i < n - 1 {
                n - i
            } else {
                0
            }]);
        }
        let last = zs[n - 1];
        assert(last.shape == Shape::D3(x.at(0), 2, x.at(2)));
        let kept = last.slice_expr(1, 0, 1);
        assert(kept.shape == Shape::D3(x.at(0), 1, x.at(2))) by {
            reveal(Tensor::slice_expr);
        }
        assert forall|b: int, t: int| 0 <= b < x.at(0) && 0 <= t < x.at(2) implies #[trigger]
        crate::signals::at(self.forward_expr(x, x_mask, g, noise_scale), b, 0, t, m)
            == crate::signals::at(last, b, 0, t, m) by {
            let idx = seq![b, 0, t];
            assert(crate::element::within(kept.shape, idx));
            crate::value::lemma_slice_value(last, 1, 0, 1, idx, m);
            assert(idx.update(1, 0) =~= idx);
        }
        (entry, told, zs)
    }
}


/// A learned column, for every row and position of a signal.
proof fn lemma_column(x: Tensor, b: int, c: int, t: int, m: Reading)
    requires
        x.shape == Shape::D2(x.at(0), 1),
        0 <= c < x.at(0),
    ensures
        x.unsqueeze_expr(0).shape == Shape::D3(1, x.at(0), 1),
        crate::signals::at(x.unsqueeze_expr(0), b, c, t, m) == crate::value::value(
            x,
            seq![c, 0],
            m,
        ),
{
    let raised = x.unsqueeze_expr(0);
    assert(raised.shape == Shape::D3(1, x.at(0), 1)) by {
        reveal(Tensor::reshape_expr);
    }
    let there = seq![0, c, 0];
    assert(crate::element::within(raised.shape, there) && crate::element::within(
        x.shape,
        seq![c, 0],
    ));
    assert(0 * x.at(0) + c == c);
    crate::value::lemma_reshape_value(x, raised.shape, there, seq![c, 0], m);
    assert(crate::element::unstretched(raised.shape, seq![b, c, t])
        =~= crate::element::unstretched(raised.shape, there));
    crate::value::lemma_stretched(raised, seq![b, c, t], there, m);
}

impl ElementwiseAffine {
    /// A shift and scale in real numbers: a channel times the exponential of what was learned for
    /// it, and what was learned added; or in reverse that taken away and scaled back. The mask is
    /// applied either way.
    pub proof fn lemma_value(
        self,
        x: Tensor,
        x_mask: Tensor,
        reverse: bool,
        b: int,
        c: int,
        t: int,
        m: Reading,
    )
        requires
            self.wf(x.at(1)),
            x.shape.rank() == 3,
            x_mask.shape.rank() == 3,
            crate::element::within(x.shape, seq![b, c, t]),
        ensures
            ({
                let v = crate::signals::at(x, b, c, t, m);
                let shift = (m.param)(self.m.path, seq![c, 0]);
                let log = (m.param)(self.logs.path, seq![c, 0]);
                let k = crate::signals::at(x_mask, b, c, t, m);
                crate::signals::at(self.forward_expr(x, x_mask, reverse).0, b, c, t, m)
                    == if reverse {
                    (v - shift) * (m.exp)(-log) * k
                } else {
                    (shift + (m.exp)(log) * v) * k
                }
            }),
    {
        broadcast use crate::value::group_elementwise;

        let idx = seq![b, c, t];
        assert(0 <= idx[1] < x.at(1));
        let (shift, logs) = (self.m.value_expr(), self.logs.value_expr());
        assert(shift.shape == self.m.shape && logs.shape == self.logs.shape) by {
            reveal(Tensor::leaf_expr);
        }
        assert(crate::element::within(self.m.shape, seq![c, 0]));
        crate::signals::lemma_param_value(self.m, seq![c, 0], m);
        crate::signals::lemma_param_value(self.logs, seq![c, 0], m);
        lemma_column(shift, b, c, t, m);
        let changed = if reverse {
            logs.unary_expr(UnaryOp::Neg)
        } else {
            logs.unary_expr(UnaryOp::Exp)
        };
        assert(changed.shape == logs.shape) by {
            reveal(Tensor::unary_expr);
        }
        lemma_column(changed, b, c, t, m);
        if reverse {
            let moved = x.minus_expr(shift.unsqueeze_expr(0));
            let back = changed.unsqueeze_expr(0).unary_expr(UnaryOp::Exp);
            assert(moved.shape.rank() == 3 && back.shape.rank() == 3 && moved.times_expr(
                back,
            ).shape.rank() == 3) by {
                reveal(Tensor::unary_expr);
                reveal(Tensor::binary_expr);
            }
        } else {
            let scaled = changed.unsqueeze_expr(0).times_expr(x);
            assert(scaled.shape.rank() == 3 && shift.unsqueeze_expr(0).plus_expr(
                scaled,
            ).shape.rank() == 3) by {
                reveal(Tensor::binary_expr);
            }
        }
    }
}

impl DDSConv {
    proof fn lemma_kept_shape(self, x: Tensor, x_mask: Tensor, g: Option<Tensor>)
        requires
            self.takes(x, x_mask, g),
        ensures
            self.forward_expr(x, x_mask, g).shape == x.shape,
    {
        reveal(Tensor::binary_expr);
        let start = DDSConv::conditioned_expr(x, g);
        self.lemma_after_shape(self.n_layers as nat, start, x_mask);
    }
}

impl ConvFlow {
    /// The splines that a channel decides on, in real numbers. The channels that come of it,
    /// through the first convolution, the stack of separable ones under the condition and the last
    /// convolution, under the mask, are one after the other the widths of the bins and their
    /// heights, both over the root of the number of hidden channels, and the slopes between the
    /// bins.
    pub proof fn lemma_splines_value(
        self,
        x0: Tensor,
        x_mask: Tensor,
        g: Option<Tensor>,
        b: int,
        t: int,
        k: int,
        m: Reading,
    )
        requires
            self.wf(),
            self.half_channels == 1,
            x0.shape.rank() == 3,
            x0.at(1) == 1,
            self.convs.takes_length(x0.at(2)),
            x_mask.shape.rank() == 3,
            x_mask.at(0) == 1 || x_mask.at(0) == x0.at(0),
            x_mask.at(1) == 1,
            x_mask.at(2) == 1 || x_mask.at(2) == x0.at(2),
            g matches Some(g) ==> g.covers(Shape::D3(x0.at(0), self.filter_channels, x0.at(2))),
            0 <= b < x0.at(0),
            0 <= t < x0.at(2),
            0 <= k < self.num_bins,
        ensures
            ({
                let (widths, heights, slopes) = self.splines_expr(x0, x_mask, g);
                let n = self.num_bins;
                let root = (m.sqrt)(self.filter_channels as int as real);
                let stats = self.proj.forward_expr(
                    self.convs.forward_expr(self.pre.forward_expr(x0), x_mask, g),
                );
                let held = crate::signals::at(x_mask, b, 0, t, m);
                &&& widths.shape == Shape::D4(x0.at(0), 1, x0.at(2), n)
                &&& heights.shape == widths.shape
                &&& slopes.shape == Shape::D4(x0.at(0), 1, x0.at(2), (n - 1) as usize)
                &&& crate::signals::at4(widths, b, 0, t, k, m) == crate::signals::at(
                    stats,
                    b,
                    k,
                    t,
                    m,
                ) * held / root
                &&& crate::signals::at4(heights, b, 0, t, k, m) == crate::signals::at(
                    stats,
                    b,
                    n + k,
                    t,
                    m,
                ) * held / root
                &&& k < n - 1 ==> crate::signals::at4(slopes, b, 0, t, k, m)
                    == crate::signals::at(stats, b, 2 * n + k, t, m) * held
            }),
    {
        let n = self.num_bins;
        let (rows, length) = (x0.at(0), x0.at(2));
        let parts = (n * 3 - 1) as usize;
        let (widths, heights, slopes) = self.splines_expr(x0, x_mask, g);
        let entry = self.pre.forward_expr(x0);
        self.pre.lemma_shape(x0);
        let stacked = self.convs.forward_expr(entry, x_mask, g);
        self.convs.lemma_kept_shape(entry, x_mask, g);
        let after = self.proj.forward_expr(stacked);
        assert(1 * (n * 3 - 1) == n * 3 - 1);
        self.proj.lemma_shape(stacked);
        let stats = after.times_expr(x_mask);
        let split = stats.reshape_expr(Shape::D4(rows, 1, parts, length));
        let turned = split.swap_dims_expr(2, 3);
        let scale = Scalar::Count(self.filter_channels).sqrt_expr();
        let double = (2 * n) as usize;
        let low = turned.slice_expr(3, 0, n);
        let mid = turned.slice_expr(3, n, double);
        assert(stats.shape == Shape::D3(rows, parts, length) && turned.shape == Shape::D4(
            rows,
            1,
            length,
            parts,
        ) && low.shape == Shape::D4(rows, 1, length, n) && mid.shape == low.shape && widths.shape
            == low.shape && heights.shape == low.shape && slopes.shape == Shape::D4(
            rows,
            1,
            length,
            (n - 1) as usize,
        )) by {
            reveal(Tensor::binary_expr);
            reveal(Tensor::reshape_expr);
            reveal(Tensor::swap_dims_expr);
            reveal(Tensor::slice_expr);
            reveal(Tensor::scalar_expr);
        }
        assert(crate::value::number(scale, m) == (m.sqrt)(self.filter_channels as int as real))
            by {
            reveal_with_fuel(crate::value::number, 2);
        }
        lemma_part(stats, parts, 0, n, b, t, k, m);
        lemma_part(stats, parts, n, double, b, t, k, m);
        crate::value::lemma_scalar_value(low, ScalarOp::Div, scale, seq![b, 0, t, k], m);
        crate::value::lemma_scalar_value(mid, ScalarOp::Div, scale, seq![b, 0, t, k], m);
        lemma_held(after, x_mask, b, k, t, m);
        lemma_held(after, x_mask, b, n + k, t, m);
        if k < n - 1 {
            lemma_part(stats, parts, double, parts, b, t, k, m);
            lemma_held(after, x_mask, b, 2 * n + k, t, m);
        }
    }

    /// A spline layer in real numbers. The first channel stays and decides on the splines that the
    /// second goes through. The mask is applied to both.
    pub proof fn lemma_value(
        self,
        x: Tensor,
        x_mask: Tensor,
        g: Option<Tensor>,
        reverse: bool,
        m: Reading,
    ) -> (r: (Tensor, Tensor))
        requires
            self.half_channels == 1,
            x.shape.rank() == 3,
            x.at(1) == 2,
            x_mask.shape.rank() == 3,
            x.shape.joined(x_mask.shape) == x.shape,
        ensures
            ({
                let (first, second) = r;
                let line = Shape::D3(x.at(0), 1, x.at(2));
                let (widths, heights, slopes) = self.splines_expr(first, x_mask, g);
                let moved = crate::spline::transform_expr(
                    second,
                    widths,
                    heights,
                    slopes,
                    reverse,
                    Some("linear"),
                    self.tail_bound,
                ).0;
                let y = self.forward_expr(x, x_mask, g, reverse).0;
                &&& first.shape == line && second.shape == line
                &&& forall|b: int, t: int|
                    0 <= b < x.at(0) && 0 <= t < x.at(2) ==> #[trigger] crate::signals::at(
                        first,
                        b,
                        0,
                        t,
                        m,
                    ) == crate::signals::at(x, b, 0, t, m)
                &&& forall|b: int, t: int|
                    0 <= b < x.at(0) && 0 <= t < x.at(2) ==> #[trigger] crate::signals::at(
                        second,
                        b,
                        0,
                        t,
                        m,
                    ) == crate::signals::at(x, b, 1, t, m)
                &&& y.shape == x.shape
                &&& forall|b: int, c: int, t: int|
                    0 <= b < x.at(0) && 0 <= c < 2 && 0 <= t < x.at(2) ==> #[trigger]
                    crate::signals::at(y, b, c, t, m) == crate::signals::at(
                        if c == 0 {
                            first
                        } else {
                            moved
                        },
                        b,
                        0,
                        t,
                        m,
                    ) * crate::signals::at(x_mask, b, c, t, m)
            }),
    {
        let (first, second) = lemma_channels(x, m);
        let (widths, heights, slopes) = self.splines_expr(first, x_mask, g);
        let moved = crate::spline::transform_expr(
            second,
            widths,
            heights,
            slopes,
            reverse,
            Some("linear"),
            self.tail_bound,
        ).0;
        assert(moved.shape == second.shape) by {
            reveal(Tensor::leaf_expr);
            reveal(Tensor::mask_where_expr);
        }
        lemma_rejoined(x, x_mask, first, moved, m);
        (first, second)
    }
}

/// The two channels of a signal.
proof fn lemma_channels(x: Tensor, m: Reading) -> (r: (Tensor, Tensor))
    requires
        x.shape.rank() == 3,
        x.at(1) == 2,
    ensures
        r.0 == x.slice_expr(1, 0, 1),
        r.1 == x.slice_expr(1, 1, 2),
        r.0.shape == Shape::D3(x.at(0), 1, x.at(2)),
        r.1.shape == r.0.shape,
        forall|b: int, t: int|
            0 <= b < x.at(0) && 0 <= t < x.at(2) ==> #[trigger] crate::signals::at(r.0, b, 0, t, m)
                == crate::signals::at(x, b, 0, t, m),
        forall|b: int, t: int|
            0 <= b < x.at(0) && 0 <= t < x.at(2) ==> #[trigger] crate::signals::at(r.1, b, 0, t, m)
                == crate::signals::at(x, b, 1, t, m),
{
    let line = Shape::D3(x.at(0), 1, x.at(2));
    let first = x.slice_expr(1, 0, 1);
    let second = x.slice_expr(1, 1, 2);
    assert(first.shape == line && second.shape == line) by {
        reveal(Tensor::slice_expr);
    }
    assert forall|b: int, t: int| 0 <= b < x.at(0) && 0 <= t < x.at(2) implies #[trigger]
    crate::signals::at(first, b, 0, t, m) == crate::signals::at(x, b, 0, t, m) by {
        let idx = seq![b, 0, t];
        assert(crate::element::within(line, idx));
        crate::value::lemma_slice_value(x, 1, 0, 1, idx, m);
        assert(idx.update(1, 0) =~= idx);
    }
    assert forall|b: int, t: int| 0 <= b < x.at(0) && 0 <= t < x.at(2) implies #[trigger]
    crate::signals::at(second, b, 0, t, m) == crate::signals::at(x, b, 1, t, m) by {
        let idx = seq![b, 0, t];
        assert(crate::element::within(line, idx));
        crate::value::lemma_slice_value(x, 1, 1, 2, idx, m);
        assert(idx.update(1, 1) =~= seq![b, 1, t]);
    }
    (first, second)
}

/// Two channels put together again under the mask.
proof fn lemma_rejoined(x: Tensor, x_mask: Tensor, first: Tensor, moved: Tensor, m: Reading)
    requires
        x.shape.rank() == 3,
        x.at(1) == 2,
        x_mask.shape.rank() == 3,
        x.shape.joined(x_mask.shape) == x.shape,
        first.shape == Shape::D3(x.at(0), 1, x.at(2)),
        moved.shape == first.shape,
    ensures
        first.cat_expr(moved, 1).times_expr(x_mask).shape == x.shape,
        forall|b: int, c: int, t: int|
            0 <= b < x.at(0) && 0 <= c < 2 && 0 <= t < x.at(2) ==> #[trigger] crate::signals::at(
                first.cat_expr(moved, 1).times_expr(x_mask),
                b,
                c,
                t,
                m,
            ) == crate::signals::at(
                if c == 0 {
                    first
                } else {
                    moved
                },
                b,
                0,
                t,
                m,
            ) * crate::signals::at(x_mask, b, c, t, m),
{
    let joined = first.cat_expr(moved, 1);
    let y = joined.times_expr(x_mask);
    assert(joined.shape == x.shape && y.shape == x.shape) by {
        reveal(Tensor::cat_expr);
        reveal(Tensor::binary_expr);
    }
    assert forall|b: int, c: int, t: int|
        0 <= b < x.at(0) && 0 <= c < 2 && 0 <= t < x.at(2) implies #[trigger] crate::signals::at(
        y,
        b,
        c,
        t,
        m,
    ) == crate::signals::at(
        if c == 0 {
            first
        } else {
            moved
        },
        b,
        0,
        t,
        m,
    ) * crate::signals::at(x_mask, b, c, t, m) by {
        let idx = seq![b, c, t];
        assert(crate::element::within(x.shape, idx));
        crate::value::lemma_binary_value(joined, BinaryOp::Mul, x_mask, idx, m);
        crate::value::lemma_cat_value(first, moved, 1, idx, m);
        assert(idx.update(1, c - 1) =~= seq![b, c - 1, t]);
    }
}

/// A signal under a mask of one channel.
proof fn lemma_held(x: Tensor, x_mask: Tensor, b: int, c: int, t: int, m: Reading)
    requires
        x.shape.rank() == 3,
        x_mask.shape.rank() == 3,
        x_mask.at(1) == 1,
    ensures
        crate::signals::at(x.times_expr(x_mask), b, c, t, m) == crate::signals::at(x, b, c, t, m)
            * crate::signals::at(x_mask, b, 0, t, m),
{
    let idx = seq![b, c, t];
    crate::value::lemma_binary_value(x, BinaryOp::Mul, x_mask, idx, m);
    crate::inverse::lemma_mask_of_channel(x_mask, idx, 0, m);
    assert(idx.update(1, 0) =~= seq![b, 0, t]);
}

/// A range of channels, turned so that positions come before channels.
proof fn lemma_part(
    stats: Tensor,
    parts: usize,
    start: usize,
    end: usize,
    b: int,
    t: int,
    k: int,
    m: Reading,
)
    requires
        stats.shape == Shape::D3(stats.at(0), parts, stats.at(2)),
        start <= end <= parts,
        0 <= b < stats.at(0),
        0 <= t < stats.at(2),
        0 <= k < end - start,
    ensures
        ({
            let turned = stats.reshape_expr(
                Shape::D4(stats.at(0), 1, parts, stats.at(2)),
            ).swap_dims_expr(2, 3);
            crate::signals::at4(turned.slice_expr(3, start, end), b, 0, t, k, m)
                == crate::signals::at(stats, b, start + k, t, m)
        }),
{
    let (rows, length) = (stats.at(0), stats.at(2));
    let shape = Shape::D4(rows, 1, parts, length);
    let split = stats.reshape_expr(shape);
    let turned = split.swap_dims_expr(2, 3);
    let part = turned.slice_expr(3, start, end);
    assert(split.shape == shape && turned.shape == Shape::D4(rows, 1, length, parts) && part.shape
        == Shape::D4(rows, 1, length, (end - start) as usize)) by {
        reveal(Tensor::reshape_expr);
        reveal(Tensor::swap_dims_expr);
        reveal(Tensor::slice_expr);
    }
    let idx = seq![b, 0, t, k];
    let (far, back) = (seq![b, 0, t, start + k], seq![b, 0, start + k, t]);
    assert(crate::element::within(part.shape, idx));
    crate::value::lemma_slice_value(turned, 3, start, end, idx, m);
    assert(idx.update(3, k + start) =~= far);
    assert(crate::element::within(shape.swapped(2, 3), far));
    crate::signals::lemma_swap_value(split, 2, 3, far, m);
    assert(crate::value::swapped(far, 2, 3) =~= back);
    assert(crate::element::within(shape, back) && crate::element::within(
        stats.shape,
        seq![b, start + k, t],
    ));
    assert(b * 1 + 0 == b);
    crate::value::lemma_reshape_value(stats, shape, back, seq![b, start + k, t], m);
}

} // verus!

//! What holds of durations: how many frames they make up, and where there are none.

use crate::flow::ElementwiseAffine;
use crate::nn::Conv1d;
use crate::number::{Real, Scalar, ONE};
use crate::predictor::{
    ConvFlow, StochasticDurationPredictor, StochasticDurationPredictorLayers,
};
use crate::shape::Shape;
use crate::speech::Sentence;
use crate::synthesizer::SynthesizerTrn;
use crate::tensor::{Noise, ScalarOp, Tensor, UnaryOp};
use crate::value::Reading;
use crate::vits::VitsModel;
use crate::voice::Scales;
use crate::wavenet::DDSConv;
use vstd::prelude::*;

verus! {

/// Whole numbers add up to a whole number.
proof fn lemma_whole_sum(
    n: nat,
    row: spec_fn(int) -> real,
    numbers: spec_fn(int) -> int,
) -> (s: int)
    requires
        forall|k: int| 0 <= k < n ==> #[trigger] row(k) == numbers(k) as real,
    ensures
        crate::value::sum(n, row) == s as real,
    decreases n,
{
    if n == 0 {
        0
    } else {
        let before = lemma_whole_sum((n - 1) as nat, row, numbers);
        assert(row(n - 1) == numbers(n - 1) as real);
        before + numbers(n - 1)
    }
}

/// How many frames the phonemes last together.
pub open spec fn frame_sum(w_ceil: Tensor, m: Reading) -> real {
    crate::value::sum(
        w_ceil.at(2) as nat,
        |i: int| crate::value::value(w_ceil, seq![0, 0, i], m),
    )
}

/// The durations of one row added up.
proof fn lemma_row_sum(w_ceil: Tensor, m: Reading)
    requires
        w_ceil.shape == Shape::D3(1, 1, w_ceil.at(2)),
    ensures
        w_ceil.sum_dim_expr(1).sum_dim_expr(2).shape == Shape::D3(1, 1, 1),
        crate::value::value(w_ceil.sum_dim_expr(1).sum_dim_expr(2), seq![0, 0, 0], m)
            == frame_sum(w_ceil, m),
{
    let n = w_ceil.at(2) as nat;
    let columns = w_ceil.sum_dim_expr(1);
    let summed = columns.sum_dim_expr(2);
    let origin = seq![0int, 0int, 0int];
    assert(columns.shape == w_ceil.shape && summed.shape == Shape::D3(1, 1, 1)) by {
        reveal(Tensor::sum_dim_expr);
    }
    let row = |i: int| crate::value::value(columns, origin.update(2, i), m);
    let wanted = |i: int| crate::value::value(w_ceil, seq![0, 0, i], m);
    crate::value::lemma_sum_value(columns, 2, origin, m);
    assert forall|i: int| 0 <= i < n implies #[trigger] row(i) == wanted(i) by {
        let at = origin.update(2, i);
        crate::value::lemma_sum_value(w_ceil, 1, at, m);
        let only = |c: int| crate::value::value(w_ceil, at.update(1, c), m);
        assert(crate::value::sum(1, only) == only(0)) by {
            reveal_with_fuel(crate::value::sum, 2);
        }
        assert(at.update(1, 0) =~= seq![0, 0, i]);
    }
    crate::value::lemma_same_sum(n, row, wanted);
}

/// Durations that were made whole have a whole sum.
proof fn lemma_whole_durations(w: Tensor, m: Reading) -> (whole: int)
    ensures
        frame_sum(w.unary_expr(UnaryOp::Ceil), m) == whole as real,
{
    let w_ceil = w.unary_expr(UnaryOp::Ceil);
    let row = |i: int| crate::value::value(w_ceil, seq![0, 0, i], m);
    let numbers = |i: int| crate::value::ceiling(crate::value::value(w, seq![0, 0, i], m));
    assert forall|i: int| 0 <= i < w_ceil.at(2) implies #[trigger] row(i) == numbers(
        i,
    ) as real by {
        crate::value::lemma_unary_value(w, UnaryOp::Ceil, seq![0, 0, i], m);
    }
    lemma_whole_sum(w_ceil.at(2) as nat, row, numbers)
}

/// A number that is whole and not negative is not changed by leaving out its fraction.
proof fn lemma_truncated(whole: int)
    ensures
        crate::value::truncated(crate::value::greater(whole as real, 1real)) as real
            == crate::value::greater(whole as real, 1real),
{
    let kept = if whole < 1 {
        1
    } else {
        whole
    };
    assert(crate::value::greater(whole as real, 1real) == kept as real);
    lemma_whole(kept);
}

/// A whole number is not changed by leaving out its fraction.
proof fn lemma_whole(whole: int)
    ensures
        (whole as real).floor() == whole,
        crate::value::truncated(whole as real) == whole,
{
}

/// Durations of one row make up a length.
proof fn lemma_length(w: Tensor, m: Reading)
    requires
        w.shape == Shape::D3(1, 1, w.at(2)),
    ensures
        ({
            let w_ceil = w.unary_expr(UnaryOp::Ceil);
            crate::value::value(
                w_ceil.sum_dim_expr(1).sum_dim_expr(2).reshape_expr(Shape::D1(1)).scalar_expr(
                    ScalarOp::ClampMin,
                    Scalar::literal_expr(ONE),
                ).unary_expr(UnaryOp::ToInt),
                seq![0],
                m,
            ) == crate::value::greater(frame_sum(w_ceil, m), 1real)
        }),
{
    broadcast use {crate::value::lemma_unary_value, crate::value::lemma_scalar_value};

    let w_ceil = w.unary_expr(UnaryOp::Ceil);
    assert(w_ceil.shape == w.shape) by {
        reveal(Tensor::unary_expr);
    }
    let summed = w_ceil.sum_dim_expr(1).sum_dim_expr(2);
    lemma_row_sum(w_ceil, m);
    let whole = lemma_whole_durations(w, m);
    lemma_truncated(whole);
    crate::value::lemma_reshape_value(summed, Shape::D1(1), seq![0int], seq![0int, 0, 0], m);
    let one = Scalar::literal_expr(ONE);
    assert(crate::value::number(one, m) == 1real) by {
        crate::number::lemma_small_numbers();
    }
}

impl SynthesizerTrn {
    /// A phoneme lasts as many frames as its duration, times the scale, makes up to the next whole
    /// number; and where it is masked, none.
    pub proof fn lemma_duration(
        self,
        x: Tensor,
        x_lengths: Tensor,
        length_scale: Real,
        noise_scale_w: Real,
        i: int,
        m: Reading,
    )
        requires
            ({
                let p = self.predict_expr(x, x_lengths, length_scale, noise_scale_w);
                p.wf(p.w_ceil.at(2), self.inter_channels()) && 0 <= i < p.w_ceil.at(2)
            }),
        ensures
            ({
                let p = self.predict_expr(x, x_lengths, length_scale, noise_scale_w);
                let (encoded, _, _, x_mask) = self.enc_p.forward_expr(x, x_lengths);
                let logw = self.sdp().forward_expr(encoded, x_mask, None, noise_scale_w);
                crate::value::value(p.w_ceil, seq![0, 0, i], m) == crate::value::ceiling(
                    (m.exp)(crate::value::value(logw, seq![0, 0, i], m)) * crate::value::value(
                        x_mask,
                        seq![0, 0, i],
                        m,
                    ) * crate::number::double(length_scale.bits),
                ) as real
            }),
    {
        broadcast use crate::value::group_elementwise;

        let p = self.predict_expr(x, x_lengths, length_scale, noise_scale_w);
        let (encoded, _, _, x_mask) = self.enc_p.forward_expr(x, x_lengths);
        let logw = self.sdp().forward_expr(encoded, x_mask, None, noise_scale_w);
        let exact = logw.unary_expr(UnaryOp::Exp);
        let masked = exact.times_expr(x_mask);
        assert(exact.shape.rank() == 3) by {
            reveal(Tensor::unary_expr);
            reveal(Tensor::scalar_expr);
            reveal(Tensor::binary_expr);
        }
    }

    /// The predicted number of frames is the sum of the durations, but not less than one.
    pub proof fn lemma_frames(
        self,
        x: Tensor,
        x_lengths: Tensor,
        length_scale: Real,
        noise_scale_w: Real,
        m: Reading,
    )
        requires
            ({
                let p = self.predict_expr(x, x_lengths, length_scale, noise_scale_w);
                p.wf(p.w_ceil.at(2), self.inter_channels())
            }),
        ensures
            ({
                let p = self.predict_expr(x, x_lengths, length_scale, noise_scale_w);
                crate::value::value(p.y_lengths, seq![0], m) == crate::value::greater(
                    frame_sum(p.w_ceil, m),
                    1real,
                )
            }),
    {
        let (encoded, _, _, x_mask) = self.enc_p.forward_expr(x, x_lengths);
        let logw = self.sdp().forward_expr(encoded, x_mask, None, noise_scale_w);
        let w = logw.unary_expr(UnaryOp::Exp).times_expr(x_mask).scalar_expr(
            ScalarOp::Mul,
            Scalar::Literal(length_scale),
        );
        assert(w.shape == w.unary_expr(UnaryOp::Ceil).shape) by {
            reveal(Tensor::unary_expr);
        }
        lemma_length(w, m);
    }
}

impl Sentence {
    /// A sentence lasts as many frames as its phonemes together, but at least one.
    pub proof fn lemma_frames(
        self,
        model: VitsModel,
        phonemes: usize,
        scales: Scales,
        m: Reading,
    )
        requires
            self.is_of(model, phonemes, scales),
        ensures
            crate::value::value(self.frames, seq![0], m) == crate::value::greater(
                frame_sum(self.prediction.w_ceil, m),
                1real,
            ),
    {
        let lengths = self.prediction.y_lengths;
        model.model_g.lemma_frames(
            Sentence::ids_expr(phonemes),
            Sentence::length_expr(),
            scales.length_scale,
            scales.noise_scale_w,
            m,
        );
        reveal(Tensor::max_expr);
        let first = crate::element::unflat(lengths.shape, 0);
        assert(first =~= seq![0int]);
        assert(crate::value::greatest(lengths, 1, m) == crate::value::value(lengths, first, m));
    }
}

impl ElementwiseAffine {
    /// The way back keeps the shape, and yields nothing where the mask is zero.
    pub proof fn lemma_masked(self, x: Tensor, x_mask: Tensor, idx: Seq<int>, m: Reading)
        requires
            self.wf(x.at(1)),
            x.shape.rank() == 3,
            x.shape.joined(x_mask.shape) == x.shape,
            x_mask.shape.rank() == 3,
            crate::value::value(x_mask, idx, m) == 0real,
        ensures
            crate::value::value(self.forward_expr(x, x_mask, true).0, idx, m) == 0real,
    {
        broadcast use crate::value::group_elementwise;

        let shift = self.m.value_expr().unsqueeze_expr(0);
        let scale = self.logs.value_expr().unary_expr(UnaryOp::Neg).unsqueeze_expr(
            0,
        ).unary_expr(UnaryOp::Exp);
        let scaled = x.minus_expr(shift).times_expr(scale);
        assert(scaled.shape.rank() == 3) by {
            reveal(Tensor::binary_expr);
        }
        let v = crate::value::value(scaled, idx, m);
        assert(v * 0real == 0real) by (nonlinear_arith);
    }

    proof fn lemma_shape(self, x: Tensor, x_mask: Tensor)
        requires
            self.wf(x.at(1)),
            x.shape.rank() == 3,
            x.shape.joined(x_mask.shape) == x.shape,
        ensures
            self.forward_expr(x, x_mask, true).0.shape == x.shape,
    {
        reveal(Tensor::leaf_expr);
        reveal(Tensor::unary_expr);
        reveal(Tensor::binary_expr);
        reveal(Tensor::reshape_expr);
    }
}

impl ConvFlow {
    /// The layer keeps the shape of a signal.
    pub proof fn lemma_shape(self, x: Tensor, x_mask: Tensor, g: Option<Tensor>, reverse: bool)
        requires
            self.half_channels == 1,
            x.shape.rank() == 3,
            x.at(1) == 2,
            x.shape.joined(x_mask.shape) == x.shape,
        ensures
            self.forward_expr(x, x_mask, g, reverse).0.shape == x.shape,
    {
        reveal(Tensor::leaf_expr);
        reveal(Tensor::binary_expr);
        reveal(Tensor::slice_expr);
        reveal(Tensor::cat_expr);
        reveal(Tensor::mask_where_expr);
    }
}

impl Conv1d {
    /// A layer that leaves signals as long as they are.
    pub proof fn lemma_shape(self, x: Tensor)
        requires
            x.shape.rank() == 3,
            x.at(2) >= 1,
            self.pointwise(x.at(1), self.channels_out()) || self.keeps_length(
                x.at(1),
                self.channels_out(),
            ) && self.room_for(x.at(2)),
        ensures
            self.forward_expr(x).shape == Shape::D3(x.at(0), self.channels_out(), x.at(2)),
    {
        reveal(Tensor::leaf_expr);
        reveal(Tensor::conv1d_expr);
        if self.pointwise(x.at(1), self.channels_out()) {
            assert(self.dilation * (self.kernel_size - 1) == 0) by (nonlinear_arith)
                requires
                    self.kernel_size == 1,
            ;
            self.window().lemma_keeps_length(x.at(2), 1);
        } else {
            self.window().lemma_keeps_length(x.at(2), self.kernel_size);
        }
    }
}

impl DDSConv {
    /// The layers keep the shape of a signal.
    pub proof fn lemma_after_shape(self, n: nat, x: Tensor, x_mask: Tensor)
        requires
            n <= self.n_layers,
            x.shape.rank() == 3,
            self.wf(x.at(1)),
            self.takes_length(x.at(2)),
            x.shape.joined(x_mask.shape) == x.shape,
        ensures
            self.after_expr(n, x, x_mask).shape == x.shape,
        decreases n,
    {
        if n > 0 {
            self.lemma_after_shape((n - 1) as nat, x, x_mask);
            let i = n - 1;
            assert(self.layer_fits(i, x.at(1)));
            assert(self.convs_sep@[i].room_for(x.at(2)));
            let before = self.after_expr((n - 1) as nat, x, x_mask);
            let masked = before.times_expr(x_mask);
            assert(masked.shape == x.shape) by {
                reveal(Tensor::binary_expr);
            }
            self.convs_sep@[i].lemma_shape(masked);
            let y = self.norms_1@[i].over_channels_expr(
                self.convs_sep@[i].forward_expr(masked),
            ).unary_expr(UnaryOp::Gelu);
            assert(y.shape == x.shape) by {
                reveal(Tensor::swap_dims_expr);
                reveal(Tensor::layer_norm_expr);
                reveal(Tensor::unary_expr);
            }
            self.convs_1x1@[i].lemma_shape(y);
            reveal(Tensor::swap_dims_expr);
            reveal(Tensor::layer_norm_expr);
            reveal(Tensor::unary_expr);
            reveal(Tensor::dropout_expr);
            reveal(Tensor::binary_expr);
        }
    }
}

impl StochasticDurationPredictor {
    /// The encoding that the steps depend on is as long as the phonemes.
    pub proof fn lemma_condition_shape(self, x: Tensor, x_mask: Tensor, g: Option<Tensor>)
        requires
            self.wf(x.at(1)),
            self.takes(x.at(0), x.at(2)),
            x.shape.rank() == 3,
            x_mask.shape.rank() == 3,
            x_mask.at(0) == 1 || x_mask.at(0) == x.at(0),
            x_mask.at(1) == 1,
            x_mask.at(2) == 1 || x_mask.at(2) == x.at(2),
            g matches Some(g) ==> g.covers(Shape::D3(x.at(0), self.filter_channels(), x.at(2))),
        ensures
            self.condition_expr(x, x_mask, g).shape == Shape::D3(
                x.at(0),
                self.filter_channels(),
                x.at(2),
            ),
    {
        reveal(Tensor::binary_expr);
        self.pre.lemma_shape(x);
        let h = DDSConv::conditioned_expr(self.pre.forward_expr(x), g);
        let again = DDSConv::conditioned_expr(h, g);
        self.convs.lemma_after_shape(self.convs.n_layers as nat, again, x_mask);
        self.proj.lemma_shape(self.convs.forward_expr(h, x_mask, g));
    }

    /// Noise keeps its shape through the steps.
    pub proof fn lemma_shape(
        self,
        n: nat,
        z: Tensor,
        x_mask: Tensor,
        x: Tensor,
    )
        requires
            self.flows.len() >= 2,
            n < self.flows.len(),
            forall|i: int|
                0 <= i < self.flows.len() ==> (#[trigger] self.flows@[i]).wf(
                    self.filter_channels(),
                ),
            z.shape.rank() == 3,
            z.at(1) == 2,
            z.shape.joined(x_mask.shape) == z.shape,
        ensures
            self.after_expr(n, z, x_mask, x).shape == z.shape,
        decreases n,
    {
        if n > 0 {
            self.lemma_shape((n - 1) as nat, z, x_mask, x);
            let before = self.after_expr((n - 1) as nat, z, x_mask, x);
            let step = self.step(n - 1);
            assert(step.wf(self.filter_channels())) by {
                if n - 1 < self.flows.len() - 2 {
                    assert(self.flows@[self.flows.len() - n].wf(self.filter_channels()));
                } else {
                    assert(self.flows@[0].wf(self.filter_channels()));
                }
            }
            match step {
                StochasticDurationPredictorLayers::ElementwiseAffine(layer) => {
                    layer.lemma_shape(before, x_mask);
                },
                StochasticDurationPredictorLayers::ConvFlow(layer) => {
                    layer.lemma_shape(before, x_mask, Some(x), true);
                },
                StochasticDurationPredictorLayers::Flip(_) => {
                    reveal(Tensor::flip_expr);
                },
            }
        }
    }

    /// The logarithm of a duration is zero where the mask is zero.
    pub proof fn lemma_masked(
        self,
        x: Tensor,
        x_mask: Tensor,
        g: Option<Tensor>,
        noise_scale: Real,
        idx: Seq<int>,
        m: Reading,
    )
        requires
            self.wf(x.at(1)),
            self.takes(x.at(0), x.at(2)),
            self.flows@[0] is ElementwiseAffine,
            x.shape.rank() == 3,
            x_mask.shape.rank() == 3,
            x_mask.at(0) == 1 || x_mask.at(0) == x.at(0),
            x_mask.at(1) == 1,
            x_mask.at(2) == 1 || x_mask.at(2) == x.at(2),
            g matches Some(g) ==> g.covers(Shape::D3(x.at(0), self.filter_channels(), x.at(2))),
            crate::element::within(Shape::D3(x.at(0), 1, x.at(2)), idx),
            crate::value::value(x_mask, idx, m) == 0real,
        ensures
            crate::value::value(self.forward_expr(x, x_mask, g, noise_scale), idx, m) == 0real,
    {
        let condition = self.condition_expr(x, x_mask, g);
        self.lemma_condition_shape(x, x_mask, g);
        let z = Tensor::noise_expr(
            Noise::Duration,
            Shape::D3(x.at(0), 2, x.at(2)),
        ).scalar_expr(ScalarOp::Mul, Scalar::Literal(noise_scale));
        assert(z.shape == Shape::D3(x.at(0), 2, x.at(2))) by {
            reveal(Tensor::leaf_expr);
            reveal(Tensor::scalar_expr);
        }
        let n = (self.flows.len() - 1) as nat;
        self.lemma_shape((n - 1) as nat, z, x_mask, condition);
        self.lemma_shape(n, z, x_mask, condition);
        let before = self.after_expr((n - 1) as nat, z, x_mask, condition);
        assert(self.flows@[0].wf(self.filter_channels()));
        if let StochasticDurationPredictorLayers::ElementwiseAffine(layer) = self.flows@[0] {
            layer.lemma_masked(before, x_mask, idx, m);
        }
        let after = self.after_expr(n, z, x_mask, condition);
        assert(after.slice_expr(1, 0, 1).shape == Shape::D3(x.at(0), 1, x.at(2))) by {
            reveal(Tensor::slice_expr);
        }
        crate::value::lemma_slice_value(after, 1, 0, 1, idx, m);
        assert(idx.update(1, idx[1] + 0) =~= idx);
    }
}

} // verus!

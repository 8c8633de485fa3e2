//! What does not depend on what is drawn at random, and what a voice says without noise.

use crate::attention::{MultiHeadAttention, FFN};
use crate::encoder::{Encoder, TextEncoder};
use crate::flow::{ResidualCouplingBlock, ResidualCouplingBlockLayers, ResidualCouplingLayer};
use crate::generator::{Generator, ResBlock, ResBlock1, ResBlock2};
use crate::number::{Real, Scalar, ZERO};
use crate::synthesizer::{Prediction, SynthesizerTrn};
use crate::tensor::{Noise, ScalarOp, Tensor, UnaryOp};
use crate::value::Reading;
use crate::vits::VitsModel;
use vstd::prelude::*;

verus! {

/// Whether a tensor has the same values under two readings.
pub open spec fn steady(x: Tensor, m: Reading, n: Reading) -> bool {
    crate::alike::alike(x, x, m, n)
}

impl FFN {
    /// The layer yields the same values of signals and masks that have the same values.
    pub proof fn lemma_alike(
        self,
        x: Tensor,
        y: Tensor,
        mask: Tensor,
        mask_: Tensor,
        m: Reading,
        n: Reading,
    )
        requires
            m.same_but_noise(n),
            crate::alike::alike(x, y, m, n),
            crate::alike::alike(mask, mask_, m, n),
        ensures
            crate::alike::alike(
                self.forward_expr(x, mask),
                self.forward_expr(y, mask_),
                m,
                n,
            ),
    {
        broadcast use {crate::alike::group_alike, crate::readings::group_layers};

        let (a, a_) = (
            self.padded_expr(x.times_expr(mask)),
            self.padded_expr(y.times_expr(mask_)),
        );
        assert(crate::alike::alike(a, a_, m, n));
        let (b, b_) = (self.conv_1.forward_expr(a), self.conv_1.forward_expr(a_));
        let (c, c_) = (self.activated_expr(b), self.activated_expr(b_));
        assert(crate::alike::alike(c, c_, m, n));
        let (d, d_) = (
            self.padded_expr(self.drop.forward_expr(c).times_expr(mask)),
            self.padded_expr(self.drop.forward_expr(c_).times_expr(mask_)),
        );
        assert(crate::alike::alike(d, d_, m, n));
    }
}

impl MultiHeadAttention {
    proof fn lemma_steady_embeddings(
        self,
        embeddings: Tensor,
        length: usize,
        m: Reading,
        n: Reading,
    )
        requires
            m.same_but_noise(n),
            steady(embeddings, m, n),
        ensures
            steady(self.relative_embeddings_expr(embeddings, length), m, n),
    {
        broadcast use crate::alike::group_alike;

    }

    proof fn lemma_alike_positions(x: Tensor, y: Tensor, m: Reading, n: Reading)
        requires
            m.same_but_noise(n),
            crate::alike::alike(x, y, m, n),
        ensures
            crate::alike::alike(
                MultiHeadAttention::absolute_to_relative_expr(x),
                MultiHeadAttention::absolute_to_relative_expr(y),
                m,
                n,
            ),
            crate::alike::alike(
                MultiHeadAttention::relative_to_absolute_expr(x),
                MultiHeadAttention::relative_to_absolute_expr(y),
                m,
                n,
            ),
    {
        broadcast use crate::alike::group_alike;

    }

    proof fn lemma_alike_scores(
        self,
        query: Tensor,
        query_: Tensor,
        key: Tensor,
        key_: Tensor,
        length: usize,
        m: Reading,
        n: Reading,
    )
        requires
            m.same_but_noise(n),
            crate::alike::alike(query, query_, m, n),
            crate::alike::alike(key, key_, m, n),
        ensures
            crate::alike::alike(
                self.scores_expr(query, key, length),
                self.scores_expr(query_, key_, length),
                m,
                n,
            ),
    {
        broadcast use crate::alike::group_alike;

        let (scaled, scaled_) = (
            query.scalar_expr(ScalarOp::Div, self.scale()),
            query_.scalar_expr(ScalarOp::Div, self.scale()),
        );
        assert(crate::alike::alike(scaled, scaled_, m, n));
        let table = self.emb_rel_k->0.value_expr();
        self.lemma_steady_embeddings(table, length, m, n);
        let turned = self.relative_embeddings_expr(table, length).unsqueeze_expr(0).swap_dims_expr(
            2,
            3,
        );
        assert(steady(turned, m, n));
        let (logits, logits_) = (scaled.matmul_expr(turned), scaled_.matmul_expr(turned));
        assert(crate::alike::alike(logits, logits_, m, n));
        MultiHeadAttention::lemma_alike_positions(logits, logits_, m, n);
        let bias = MultiHeadAttention::attention_bias_proximal_expr(length);
        assert(steady(bias, m, n));
        assert(crate::alike::alike(
            scaled.matmul_expr(key.swap_dims_expr(2, 3)),
            scaled_.matmul_expr(key_.swap_dims_expr(2, 3)),
            m,
            n,
        ));
    }

    /// Attention of signals to themselves yields the same values of signals and masks that have the
    /// same values.
    pub proof fn lemma_alike(
        self,
        x: Tensor,
        y: Tensor,
        mask: Tensor,
        mask_: Tensor,
        m: Reading,
        n: Reading,
    )
        requires
            m.same_but_noise(n),
            crate::alike::alike(x, y, m, n),
            crate::alike::alike(mask, mask_, m, n),
        ensures
            crate::alike::alike(
                self.forward_expr(x, x, Some(mask)),
                self.forward_expr(y, y, Some(mask_)),
                m,
                n,
            ),
    {
        broadcast use {crate::alike::group_alike, crate::readings::group_layers};

        let (q, q_) = (self.conv_q.forward_expr(x), self.conv_q.forward_expr(y));
        let (k, k_) = (self.conv_k.forward_expr(x), self.conv_k.forward_expr(y));
        let (v, v_) = (self.conv_v.forward_expr(x), self.conv_v.forward_expr(y));
        assert(crate::alike::alike(q, q_, m, n) && crate::alike::alike(k, k_, m, n)
            && crate::alike::alike(v, v_, m, n));
        let (b, t_s, t_t) = (k.at(0), k.at(2), q.at(2));
        let (query, query_) = (self.heads_expr(q, b, t_t), self.heads_expr(q_, b, t_t));
        let (key, key_) = (self.heads_expr(k, b, t_s), self.heads_expr(k_, b, t_s));
        let (value, value_) = (self.heads_expr(v, b, t_s), self.heads_expr(v_, b, t_s));
        assert(crate::alike::alike(query, query_, m, n) && crate::alike::alike(key, key_, m, n)
            && crate::alike::alike(value, value_, m, n));
        let (scores, scores_) = (
            self.scores_expr(query, key, t_s),
            self.scores_expr(query_, key_, t_s),
        );
        self.lemma_alike_scores(query, query_, key, key_, t_s, m, n);
        let zero = Scalar::literal_expr(0);
        let never = Scalar::literal_expr(crate::attention::MASKED_SCORE);
        assert(crate::alike::alike(
            scores.mask_fill_expr(mask.scalar_expr(ScalarOp::Equal, zero), never),
            scores_.mask_fill_expr(mask_.scalar_expr(ScalarOp::Equal, zero), never),
            m,
            n,
        ));
        let (masked, masked_) = (
            self.masked_scores_expr(scores, Some(mask)),
            self.masked_scores_expr(scores_, Some(mask_)),
        );
        assert(crate::alike::alike(masked, masked_, m, n));
        let (p_attn, p_attn_) = (
            self.drop.forward_expr(masked.softmax_expr(3)),
            self.drop.forward_expr(masked_.softmax_expr(3)),
        );
        assert(crate::alike::alike(p_attn, p_attn_, m, n));
        let (output, output_) = (p_attn.matmul_expr(value), p_attn_.matmul_expr(value_));
        assert(crate::alike::alike(output, output_, m, n));
        let table = self.emb_rel_v->0.value_expr();
        self.lemma_steady_embeddings(table, t_s, m, n);
        let raised = self.relative_embeddings_expr(table, t_s).unsqueeze_expr(0);
        assert(steady(raised, m, n));
        MultiHeadAttention::lemma_alike_positions(p_attn, p_attn_, m, n);
        let (relative, relative_) = (
            MultiHeadAttention::absolute_to_relative_expr(p_attn).matmul_expr(raised),
            MultiHeadAttention::absolute_to_relative_expr(p_attn_).matmul_expr(raised),
        );
        assert(crate::alike::alike(relative, relative_, m, n));
        assert(crate::alike::alike(
            output.plus_expr(relative),
            output_.plus_expr(relative_),
            m,
            n,
        ));
        assert(crate::alike::alike(
            self.attention_expr(q, k, v, Some(mask)).0,
            self.attention_expr(q_, k_, v_, Some(mask_)).0,
            m,
            n,
        ));
    }
}

impl Encoder {
    proof fn lemma_alike_after(
        self,
        k: nat,
        x: Tensor,
        y: Tensor,
        mask: Tensor,
        mask_: Tensor,
        m: Reading,
        n: Reading,
    )
        requires
            m.same_but_noise(n),
            crate::alike::alike(x, y, m, n),
            crate::alike::alike(mask, mask_, m, n),
        ensures
            crate::alike::alike(self.after_expr(k, x, mask), self.after_expr(k, y, mask_), m, n),
        decreases k,
    {
        broadcast use {crate::alike::group_alike, crate::readings::group_layers};

        if k > 0 {
            self.lemma_alike_after((k - 1) as nat, x, y, mask, mask_, m, n);
            let i = k - 1;
            let (p, p_) = (
                self.after_expr((k - 1) as nat, x, mask),
                self.after_expr((k - 1) as nat, y, mask_),
            );
            let (c, c_) = (Encoder::attn_mask_expr(mask), Encoder::attn_mask_expr(mask_));
            assert(crate::alike::alike(c, c_, m, n));
            self.attn_layers@[i].lemma_alike(p, p_, c, c_, m, n);
            let (q, q_) = (
                self.attn_layers@[i].forward_expr(p, p, Some(c)),
                self.attn_layers@[i].forward_expr(p_, p_, Some(c_)),
            );
            let (a, a_) = (
                self.norm_layers_1@[i].over_channels_expr(
                    p.plus_expr(self.drop.forward_expr(q)),
                ),
                self.norm_layers_1@[i].over_channels_expr(
                    p_.plus_expr(self.drop.forward_expr(q_)),
                ),
            );
            assert(crate::alike::alike(a, a_, m, n));
            self.ffn_layers@[i].lemma_alike(a, a_, mask, mask_, m, n);
            let (z, z_) = (
                self.ffn_layers@[i].forward_expr(a, mask),
                self.ffn_layers@[i].forward_expr(a_, mask_),
            );
            assert(crate::alike::alike(
                a.plus_expr(self.drop.forward_expr(z)),
                a_.plus_expr(self.drop.forward_expr(z_)),
                m,
                n,
            ));
        }
    }

    /// The layers yield the same values of signals and masks that have the same values.
    pub proof fn lemma_alike(
        self,
        x: Tensor,
        y: Tensor,
        mask: Tensor,
        mask_: Tensor,
        m: Reading,
        n: Reading,
    )
        requires
            m.same_but_noise(n),
            crate::alike::alike(x, y, m, n),
            crate::alike::alike(mask, mask_, m, n),
        ensures
            crate::alike::alike(self.forward_expr(x, mask), self.forward_expr(y, mask_), m, n),
    {
        broadcast use crate::alike::group_alike;

        let (p, q) = (x.times_expr(mask), y.times_expr(mask_));
        assert(crate::alike::alike(p, q, m, n));
        self.lemma_alike_after(self.attn_layers.len() as nat, p, q, mask, mask_, m, n);
    }
}

/// A mask is steady where the lengths are.
proof fn lemma_steady_mask(lengths: Tensor, size: usize, m: Reading, n: Reading)
    requires
        m.same_but_noise(n),
        steady(lengths, m, n),
    ensures
        steady(crate::encoder::signal_mask_expr(lengths, size), m, n),
        steady(crate::encoder::sequence_mask_expr(lengths, size), m, n),
{
    broadcast use crate::alike::group_alike;

}

impl TextEncoder {
    proof fn lemma_steady(self, x: Tensor, x_lengths: Tensor, m: Reading, n: Reading)
        requires
            m.same_but_noise(n),
            steady(x, m, n),
            steady(x_lengths, m, n),
        ensures
            ({
                let r = self.forward_expr(x, x_lengths);
                steady(r.0, m, n) && steady(r.1, m, n) && steady(r.2, m, n) && steady(r.3, m, n)
            }),
    {
        broadcast use {crate::alike::group_alike, crate::readings::group_layers};

        let scale = Scalar::Count(self.hidden_channels).sqrt_expr();
        let a = self.emb.forward_expr(x).scalar_expr(ScalarOp::Mul, scale).swap_dims_expr(1, 2);
        assert(steady(a, m, n));
        let x_mask = crate::encoder::signal_mask_expr(x_lengths, a.at(2));
        lemma_steady_mask(x_lengths, a.at(2), m, n);
        let b = a.times_expr(x_mask);
        assert(steady(b, m, n));
        self.encoder.lemma_alike(b, b, x_mask, x_mask, m, n);
        let stats = self.proj.forward_expr(self.encoder.forward_expr(b, x_mask)).times_expr(
            x_mask,
        );
        assert(steady(stats, m, n));
    }
}

impl ResidualCouplingLayer {
    proof fn lemma_steady(self, x: Tensor, x_mask: Tensor, m: Reading, n: Reading)
        requires
            m.same_but_noise(n),
            steady(x, m, n),
            steady(x_mask, m, n),
        ensures
            steady(self.forward_expr(x, x_mask, None, true).0, m, n),
    {
        broadcast use {crate::alike::group_alike, crate::readings::group_layers};

        let x0 = x.slice_expr(1, 0, self.half_channels);
        let h = self.pre.forward_expr(x0).times_expr(x_mask);
        assert(steady(h, m, n));
        self.enc.lemma_alike(h, h, x_mask, x_mask, None, None, m, n);
        let stats = self.post.forward_expr(self.enc.forward_expr(h, x_mask, None)).times_expr(
            x_mask,
        );
        assert(steady(stats, m, n));
        let (shift, logs) = self.stats_expr(x0, x_mask, None);
        assert(steady(shift, m, n) && steady(logs, m, n));
    }
}

impl ResidualCouplingBlock {
    proof fn lemma_steady(self, k: nat, x: Tensor, x_mask: Tensor, m: Reading, n: Reading)
        requires
            m.same_but_noise(n),
            steady(x, m, n),
            steady(x_mask, m, n),
        ensures
            steady(self.after_expr(k, x, x_mask, None, true), m, n),
        decreases k,
    {
        broadcast use crate::alike::group_alike;

        if k > 0 {
            self.lemma_steady((k - 1) as nat, x, x_mask, m, n);
            let before = self.after_expr((k - 1) as nat, x, x_mask, None, true);
            match self.step(k - 1, true) {
                ResidualCouplingBlockLayers::ResidualCouplingLayer(layer) => {
                    layer.lemma_steady(before, x_mask, m, n);
                },
                ResidualCouplingBlockLayers::Flip(_) => {},
            }
        }
    }
}

impl ResBlock1 {
    proof fn lemma_steady(self, k: nat, x: Tensor, m: Reading, n: Reading)
        requires
            m.same_but_noise(n),
            steady(x, m, n),
        ensures
            steady(self.after_expr(k, x, None), m, n),
        decreases k,
    {
        broadcast use {crate::alike::group_alike, crate::readings::group_layers};

        if k > 0 {
            self.lemma_steady((k - 1) as nat, x, m, n);
        }
    }
}

impl ResBlock2 {
    proof fn lemma_steady(self, k: nat, x: Tensor, m: Reading, n: Reading)
        requires
            m.same_but_noise(n),
            steady(x, m, n),
        ensures
            steady(self.after_expr(k, x, None), m, n),
        decreases k,
    {
        broadcast use {crate::alike::group_alike, crate::readings::group_layers};

        if k > 0 {
            self.lemma_steady((k - 1) as nat, x, m, n);
        }
    }
}

impl Generator {
    proof fn lemma_steady_sum(self, i: int, k: nat, x: Tensor, m: Reading, n: Reading)
        requires
            m.same_but_noise(n),
            steady(x, m, n),
        ensures
            steady(self.summed_expr(i, k, x), m, n),
        decreases k,
    {
        broadcast use crate::alike::group_alike;

        if k > 0 {
            self.lemma_steady_sum(i, (k - 1) as nat, x, m, n);
            match self.resblocks@[k - 1] {
                ResBlock::ResBlock1(b) => b.lemma_steady(b.convs1.len() as nat, x, m, n),
                ResBlock::ResBlock2(b) => b.lemma_steady(b.convs.len() as nat, x, m, n),
            }
        }
    }

    proof fn lemma_steady_after(self, k: nat, x: Tensor, m: Reading, n: Reading)
        requires
            m.same_but_noise(n),
            steady(x, m, n),
        ensures
            steady(self.after_expr(k, x), m, n),
        decreases k,
    {
        broadcast use {crate::alike::group_alike, crate::readings::group_layers};

        if k > 0 {
            self.lemma_steady_after((k - 1) as nat, x, m, n);
            let before = self.after_expr((k - 1) as nat, x);
            let raised = self.ups@[k - 1].forward_expr(
                before.scalar_expr(ScalarOp::LeakyRelu, Scalar::Literal(self.lrelu_slope)),
            );
            assert(steady(raised, m, n));
            self.lemma_steady_sum(k - 1, self.resblocks.len() as nat, raised, m, n);
        }
    }

    proof fn lemma_steady(self, x: Tensor, m: Reading, n: Reading)
        requires
            m.same_but_noise(n),
            steady(x, m, n),
        ensures
            steady(self.forward_expr(x, None), m, n),
    {
        broadcast use {crate::alike::group_alike, crate::readings::group_layers};

        let entry = self.entry_expr(x, None);
        assert(steady(entry, m, n));
        self.lemma_steady_after(self.ups.len() as nat, entry, m, n);
    }
}

/// The path of frames is steady where the durations and the mask are.
proof fn lemma_steady_path(duration: Tensor, mask: Tensor, m: Reading, n: Reading)
    requires
        m.same_but_noise(n),
        steady(duration, m, n),
        steady(mask, m, n),
    ensures
        steady(crate::synthesizer::generate_path_expr(duration, mask), m, n),
{
    broadcast use crate::alike::group_alike;

    let (b, t_y, t_x) = (mask.at(0), mask.at(2), mask.at(3));
    let line = duration.cumsum_expr(2).reshape_expr(
        crate::shape::Shape::D1((b * t_x) as usize),
    ).unary_expr(UnaryOp::ToInt);
    assert(steady(line, m, n));
    lemma_steady_mask(line, t_y, m, n);
    let started = crate::synthesizer::started_expr(duration, b, t_x, t_y);
    assert(steady(started, m, n));
}

impl Prediction {
    /// Whether all parts are steady.
    pub open spec fn steady(self, m: Reading, n: Reading) -> bool {
        &&& steady(self.w_ceil, m, n)
        &&& steady(self.y_lengths, m, n)
        &&& steady(self.x_mask, m, n)
        &&& steady(self.m_p, m, n)
        &&& steady(self.logs_p, m, n)
    }
}

impl SynthesizerTrn {
    /// Without noise, the predicted durations and what is known of the phonemes do not depend on
    /// what is drawn.
    pub proof fn lemma_silent_prediction(
        self,
        x: Tensor,
        x_lengths: Tensor,
        length_scale: Real,
        noise_scale_w: Real,
        m: Reading,
        n: Reading,
    )
        requires
            noise_scale_w.bits == ZERO,
            m.same_but_noise(n),
            steady(x, m, n),
            steady(x_lengths, m, n),
        ensures
            self.predict_expr(x, x_lengths, length_scale, noise_scale_w).steady(m, n),
    {
        broadcast use crate::alike::group_alike;

        self.enc_p.lemma_steady(x, x_lengths, m, n);
        let (encoded, _, _, x_mask) = self.enc_p.forward_expr(x, x_lengths);
        self.sdp().lemma_silent(encoded, x_mask, None, noise_scale_w, m, n);
        let logw = self.sdp().forward_expr(encoded, x_mask, None, noise_scale_w);
        let w = logw.unary_expr(UnaryOp::Exp).times_expr(x_mask).scalar_expr(
            ScalarOp::Mul,
            Scalar::Literal(length_scale),
        );
        assert(steady(w, m, n));
    }

    /// Without noise, the samples do not depend on what is drawn.
    pub proof fn lemma_silent_samples(
        self,
        prediction: Prediction,
        frames: usize,
        noise_scale: Real,
        max_len: Option<usize>,
        m: Reading,
        n: Reading,
    )
        requires
            noise_scale.bits == ZERO,
            m.same_but_noise(n),
            prediction.steady(m, n),
        ensures
            steady(self.decode_expr(prediction, frames, noise_scale, max_len), m, n),
    {
        broadcast use crate::alike::group_alike;

        let y_mask = crate::encoder::signal_mask_expr(prediction.y_lengths, frames);
        lemma_steady_mask(prediction.y_lengths, frames, m, n);
        let mask = prediction.x_mask.unsqueeze_expr(2).times_expr(y_mask.unsqueeze_expr(3));
        assert(steady(mask, m, n));
        lemma_steady_path(prediction.w_ceil, mask, m, n);
        let attn = SynthesizerTrn::alignment_expr(prediction, y_mask);
        let m_p = SynthesizerTrn::spread_expr(attn, prediction.m_p);
        let logs_p = SynthesizerTrn::spread_expr(attn, prediction.logs_p);
        assert(steady(m_p, m, n) && steady(logs_p, m, n));
        let noise = Tensor::noise_expr(Noise::Prior, m_p.shape).times_expr(
            logs_p.unary_expr(UnaryOp::Exp),
        );
        crate::draws::lemma_silenced(noise, noise, noise_scale, m, n);
        let z_p = SynthesizerTrn::prior_expr(prediction, y_mask, noise_scale);
        assert(steady(z_p, m, n));
        self.flow.lemma_steady(self.flow.flows.len() as nat, z_p, y_mask, m, n);
        let z = self.flow.forward_expr(z_p, y_mask, None, true);
        let kept = z.times_expr(y_mask).slice_expr(
            2,
            0,
            crate::synthesizer::kept_frames(max_len, frames),
        );
        assert(steady(kept, m, n));
        self.dec.lemma_steady(kept, m, n);
    }
}

impl VitsModel {
    /// With both noise scales zero, what a voice says of given phonemes does not depend on what is
    /// drawn.
    pub proof fn lemma_silent(
        self,
        phoname_ids: Tensor,
        phoname_lengths: Tensor,
        noise_scale: Real,
        length_sacle: Real,
        noise_scale_w: Real,
        max_len: Option<usize>,
        frames: usize,
        m: Reading,
        n: Reading,
    )
        requires
            noise_scale.bits == ZERO,
            noise_scale_w.bits == ZERO,
            m.same_but_noise(n),
            steady(phoname_ids, m, n),
            steady(phoname_lengths, m, n),
        ensures
            steady(
                self.forward_expr(
                    phoname_ids,
                    phoname_lengths,
                    noise_scale,
                    length_sacle,
                    noise_scale_w,
                    max_len,
                    frames,
                ),
                m,
                n,
            ),
    {
        let network = self.model_g;
        network.lemma_silent_prediction(
            phoname_ids,
            phoname_lengths,
            length_sacle,
            noise_scale_w,
            m,
            n,
        );
        let prediction = network.predict_expr(
            phoname_ids,
            phoname_lengths,
            length_sacle,
            noise_scale_w,
        );
        network.lemma_silent_samples(prediction, frames, noise_scale, max_len, m, n);
    }
}

} // verus!

//! What samples are: numbers between minus one and one.

use crate::generator::Generator;
use crate::number::{Real, Scalar};
use crate::synthesizer::{Prediction, SynthesizerTrn};
use crate::tensor::{ScalarOp, Tensor, UnaryOp};
use crate::value::Reading;
use crate::vits::VitsModel;
use vstd::prelude::*;

verus! {

impl Generator {
    /// What frames decode to lies between minus one and one.
    pub proof fn lemma_bounded(self, x: Tensor, g: Option<Tensor>, idx: Seq<int>, m: Reading)
        requires
            m.squashing(),
        ensures
            -1real <= crate::value::value(self.forward_expr(x, g), idx, m) <= 1real,
    {
        let last = self.after_expr(self.ups.len() as nat, self.entry_expr(x, g)).scalar_expr(
            ScalarOp::LeakyRelu,
            Scalar::literal_expr(crate::generator::LAST_SLOPE),
        );
        crate::value::lemma_unary_value(self.conv_post.forward_expr(last), UnaryOp::Tanh, idx, m);
    }
}

impl SynthesizerTrn {
    /// The samples of predicted phonemes lie between minus one and one.
    pub proof fn lemma_bounded(
        self,
        prediction: Prediction,
        frames: usize,
        noise_scale: Real,
        max_len: Option<usize>,
        idx: Seq<int>,
        m: Reading,
    )
        requires
            m.squashing(),
        ensures
            -1real <= crate::value::value(
                self.decode_expr(prediction, frames, noise_scale, max_len),
                idx,
                m,
            ) <= 1real,
    {
        let y_mask = crate::encoder::signal_mask_expr(prediction.y_lengths, frames);
        let z_p = SynthesizerTrn::prior_expr(prediction, y_mask, noise_scale);
        let z = self.flow.forward_expr(z_p, y_mask, None, true);
        let kept = z.times_expr(y_mask).slice_expr(
            2,
            0,
            crate::synthesizer::kept_frames(max_len, frames),
        );
        self.dec.lemma_bounded(kept, None, idx, m);
    }
}

impl VitsModel {
    /// The samples of a voice lie between minus one and one.
    pub proof fn lemma_bounded(
        self,
        phoname_ids: Tensor,
        phoname_lengths: Tensor,
        noise_scale: Real,
        length_sacle: Real,
        noise_scale_w: Real,
        max_len: Option<usize>,
        frames: usize,
        idx: Seq<int>,
        m: Reading,
    )
        requires
            m.squashing(),
        ensures
            -1real <= crate::value::value(
                self.forward_expr(
                    phoname_ids,
                    phoname_lengths,
                    noise_scale,
                    length_sacle,
                    noise_scale_w,
                    max_len,
                    frames,
                ),
                idx,
                m,
            ) <= 1real,
    {
        let prediction = self.model_g.predict_expr(
            phoname_ids,
            phoname_lengths,
            length_sacle,
            noise_scale_w,
        );
        self.model_g.lemma_bounded(prediction, frames, noise_scale, max_len, idx, m);
    }
}

} // verus!

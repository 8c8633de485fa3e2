//! Speaking a text, sentence by sentence. How long a sentence lasts shows only when its durations
//! have been computed, so that each is spoken in two steps.

use crate::encoder::longest_of;
use crate::shape::Shape;
use crate::synthesizer::Prediction;
use crate::tensor::{Kind, Tensor};
use crate::vits::VitsModel;
use crate::voice::Scales;
use vstd::prelude::*;

verus! {

/// Why a sentence cannot be spoken.
#[derive(Clone, Copy, PartialEq, Eq, Debug, Structural)]
pub enum SpeechError {
    /// For its number of phonemes.
    Phonemes,
    /// For its number of frames.
    Frames,
}

/// A sentence whose durations are known as recipes. The identifiers of its phonemes are input zero,
/// and their number is input one.
#[derive(Debug)]
pub struct Sentence {
    pub prediction: Prediction,
    /// The number of frames that the sentence lasts.
    pub frames: Tensor,
}

impl Sentence {
    /// The identifiers of the phonemes.
    pub open spec fn ids_expr(phonemes: usize) -> Tensor {
        Tensor::input_expr(0, Kind::Int, Shape::D2(1, phonemes))
    }

    /// The number of phonemes.
    pub open spec fn length_expr() -> Tensor {
        Tensor::input_expr(1, Kind::Int, Shape::D1(1))
    }

    /// Whether this is what is known of a sentence of `phonemes` phonemes.
    pub open spec fn is_of(self, model: VitsModel, phonemes: usize, scales: Scales) -> bool {
        &&& self.prediction == model.model_g.predict_expr(
            Sentence::ids_expr(phonemes),
            Sentence::length_expr(),
            scales.length_scale,
            scales.noise_scale_w,
        )
        &&& self.prediction.wf(phonemes, model.model_g.inter_channels())
        &&& self.frames == self.prediction.y_lengths.max_expr()
        &&& self.frames.wf()
        &&& self.frames.kind == Kind::Int
        &&& self.frames.shape == Shape::D1(1)
    }

    /// What is known of a sentence of a number of phonemes, before it is known how long it lasts.
    pub fn begin(model: &VitsModel, phonemes: usize, scales: &Scales) -> (r: Result<
        Sentence,
        SpeechError,
    >)
        requires
            model.model_g.wf(),
        ensures
            match r {
                Ok(sentence) => model.model_g.takes_length(phonemes) && sentence.is_of(
                    *model,
                    phonemes,
                    *scales,
                ),
                Err(error) => error == SpeechError::Phonemes && !model.model_g.takes_length(
                    phonemes,
                ),
            },
    {
        if !model.model_g.accepts_length(phonemes) {
            return Err(SpeechError::Phonemes);
        }
        let prediction = model.model_g.predict(
            Tensor::input(0, Kind::Int, Shape::D2(1, phonemes)),
            Tensor::input(1, Kind::Int, Shape::D1(1)),
            scales.length_scale,
            scales.noise_scale_w,
        );
        let frames = longest_of(&prediction.y_lengths);
        Ok(Sentence { prediction, frames })
    }

    /// The samples of the sentence, which lasts `frames` frames.
    pub fn finish(&self, model: &VitsModel, frames: usize, scales: &Scales) -> (r: Result<
        Tensor,
        SpeechError,
    >)
        requires
            model.model_g.wf(),
            self.prediction.wf(self.prediction.w_ceil.at(2), model.model_g.inter_channels()),
        ensures
            match r {
                Ok(samples) => {
                    &&& model.model_g.takes_frames(self.prediction.w_ceil.at(2), frames, None)
                    &&& samples == model.model_g.decode_expr(
                        self.prediction,
                        frames,
                        scales.noise_scale,
                        None,
                    )
                    &&& samples.is_signal()
                    &&& samples.shape == model.model_g.dec.shape_out(
                        model.model_g.kept_shape(frames, None),
                        None,
                    )
                },
                Err(error) => error == SpeechError::Frames && !model.model_g.takes_frames(
                    self.prediction.w_ceil.at(2),
                    frames,
                    None,
                ),
            },
    {
        if !model.model_g.accepts_frames(self.prediction.w_ceil.shape.dim(2), frames, None) {
            return Err(SpeechError::Frames);
        }
        Ok(model.model_g.decode(&self.prediction, frames, scales.noise_scale, None))
    }
}

/// Spoken in two steps, a sentence has the samples that [`VitsModel::forward`] gives it.
pub proof fn lemma_two_steps(
    model: VitsModel,
    phonemes: usize,
    frames: usize,
    scales: Scales,
    sentence: Sentence,
)
    requires
        sentence.is_of(model, phonemes, scales),
    ensures
        model.model_g.decode_expr(sentence.prediction, frames, scales.noise_scale, None)
            == model.forward_expr(
            Sentence::ids_expr(phonemes),
            Sentence::length_expr(),
            scales.noise_scale,
            scales.length_scale,
            scales.noise_scale_w,
            None,
            frames,
        ),
{
}

/// Where the samples go if nothing else is asked for: the file `output.wav`.
pub fn output_path(given: Option<String>) -> (r: String)
    ensures
        r@ == match given {
            Some(path) => path@,
            None => "output.wav"@,
        },
{
    match given {
        Some(path) => path,
        None => "output.wav".to_owned(),
    }
}

} // verus!

//! From phonemes to samples.

use crate::encoder::{sequence_mask, signal_mask, TextEncoder, TextEncoderConfig};
use crate::flow::{ResidualCouplingBlock, ResidualCouplingBlockConfig};
use crate::generator::{copied, Generator, GeneratorConfig};
use crate::limits::product_fits;
use crate::nn::{Conv1d, Conv1dConfig, Embedding};
use crate::number::{Real, Scalar, ONE};
use crate::param::Path;
use crate::predictor::{
    StochasticDurationPredictor, StochasticDurationPredictorConfig, SynthesizerTrnLayers,
};
use crate::shape::Shape;
use crate::tensor::{Kind, Noise, ScalarOp, Tensor, UnaryOp};
use crate::wavenet::{WN, WNConfig};
use vstd::prelude::*;

verus! {

/// 0.5
pub const HALF: u64 = 0x3FE0_0000_0000_0000;

/// Settings of a [`PosteriorEncoder`].
#[derive(Clone, Copy, PartialEq, Eq, Debug, Structural)]
pub struct PosteriorEncoderConfig {
    pub in_channels: usize,
    pub out_channels: usize,
    pub hidden_channels: usize,
    pub kernel_size: usize,
    pub dilation_rate: usize,
    pub n_layers: usize,
    pub gin_channels: usize,
}

/// The encoder of spectrograms, which is used while training.
#[derive(Debug)]
pub struct PosteriorEncoder {
    pub pre: Conv1d,
    pub enc: WN,
    pub proj: Conv1d,
}

impl PosteriorEncoderConfig {
    pub fn new(
        in_channels: usize,
        out_channels: usize,
        hidden_channels: usize,
        kernel_size: usize,
        dilation_rate: usize,
        n_layers: usize,
        gin_channels: usize,
    ) -> (r: PosteriorEncoderConfig)
        ensures
            r == (PosteriorEncoderConfig {
                in_channels,
                out_channels,
                hidden_channels,
                kernel_size,
                dilation_rate,
                n_layers,
                gin_channels,
            }),
    {
        PosteriorEncoderConfig {
            in_channels,
            out_channels,
            hidden_channels,
            kernel_size,
            dilation_rate,
            n_layers,
            gin_channels,
        }
    }

    pub open spec fn enc(self) -> WNConfig {
        WNConfig {
            hidden_channels: self.hidden_channels,
            kernel_size: self.kernel_size,
            dilation_rate: self.dilation_rate,
            n_layers: self.n_layers,
            gin_channels: self.gin_channels,
            p_dropout: Real { bits: 0 },
        }
    }

    pub open spec fn valid(self) -> bool {
        self.enc().valid() && self.out_channels * 2 <= usize::MAX
    }

    /// Whether `module` is the encoder with these settings, at a path.
    pub open spec fn describes(self, path: Path, module: PosteriorEncoder) -> bool {
        &&& module.pre == Conv1dConfig::usual(self.in_channels, self.hidden_channels, 1).built(
            path.field_expr("pre"),
        )
        &&& self.enc().describes(path.field_expr("enc"), module.enc)
        &&& module.proj == Conv1dConfig::usual(
            self.hidden_channels,
            (self.out_channels * 2) as usize,
            1,
        ).built(path.field_expr("proj"))
    }

    /// The encoder with these settings, at a path.
    pub fn init(&self, path: &Path) -> (r: PosteriorEncoder)
        requires
            self.valid(),
        ensures
            self.describes(*path, r),
    {
        proof {
            vstd::arithmetic::div_mod::lemma_div_basics(self.in_channels as int);
            vstd::arithmetic::div_mod::lemma_div_basics(self.hidden_channels as int);
        }
        PosteriorEncoder {
            pre: Conv1dConfig::new(self.in_channels, self.hidden_channels, 1).init(
                &path.field("pre"),
            ),
            enc: WNConfig::new(
                self.hidden_channels,
                self.kernel_size,
                self.dilation_rate,
                self.n_layers,
            ).with_gin_channels(self.gin_channels).init(&path.field("enc")),
            proj: Conv1dConfig::new(self.hidden_channels, self.out_channels * 2, 1).init(
                &path.field("proj"),
            ),
        }
    }
}

/// Which frames come no later than the end of each phoneme, by the running sums of durations.
pub open spec fn started_expr(duration: Tensor, b: usize, t_x: usize, t_y: usize) -> Tensor {
    crate::encoder::sequence_mask_expr(
        duration.cumsum_expr(2).reshape_expr(Shape::D1((b * t_x) as usize)).unary_expr(
            UnaryOp::ToInt,
        ),
        t_y,
    ).unary_expr(UnaryOp::ToFloat).reshape_expr(Shape::D3(b, t_x, t_y))
}

/// What [`generate_path`] yields.
pub open spec fn generate_path_expr(duration: Tensor, mask: Tensor) -> Tensor {
    let (b, t_y, t_x) = (mask.at(0), mask.at(2), mask.at(3));
    let path = started_expr(duration, b, t_x, t_y);
    let path = path.minus_expr(path.pad_expr(1, 1, 0).slice_expr(1, 0, t_x));
    path.unsqueeze_expr(1).swap_dims_expr(2, 3).times_expr(mask)
}

/// Which frame belongs to which phoneme, when the phonemes follow one another with the given
/// durations, within a mask of frames by phonemes.
pub fn generate_path(duration: Tensor, mask: Tensor) -> (r: Tensor)
    requires
        duration.is_signal(),
        mask.wf(),
        mask.kind == Kind::Float,
        mask.shape.rank() == 4,
        duration.shape == Shape::D3(mask.at(0), 1, mask.at(3)),
        mask.at(0) * mask.at(3) <= usize::MAX,
        mask.at(3) < usize::MAX,
    ensures
        r == generate_path_expr(duration, mask),
        r.wf(),
        r.kind == Kind::Float,
        r.shape == mask.shape,
{
    let b: usize = mask.shape.dim(0);
    let t_y: usize = mask.shape.dim(2);
    let t_x: usize = mask.shape.dim(3);
    proof {
        assert(b * 1 * t_x == b * t_x) by (nonlinear_arith);
    }
    let cum_duration = duration.cumsum(2);
    let cum_duration_flat = cum_duration.reshape(Shape::D1(b * t_x));
    let path = sequence_mask(cum_duration_flat.unary(UnaryOp::ToInt), Some(t_y), t_y).unary(
        UnaryOp::ToFloat,
    );
    let path = path.reshape(Shape::D3(b, t_x, t_y));
    let path = path.clone().minus(path.pad(1, 1, 0).slice(1, 0, t_x));
    path.unsqueeze_dim(1).swap_dims(2, 3).times(mask)
}

/// Settings of a [`SynthesizerTrn`].
#[derive(Debug)]
pub struct SynthesizerTrnCofnig {
    pub n_vocab: usize,
    pub spec_channels: usize,
    pub segment_size: usize,
    pub inter_channels: usize,
    pub hidden_channels: usize,
    pub filter_channels: usize,
    pub n_heads: usize,
    pub n_layers: usize,
    pub kernel_size: usize,
    pub p_dropout: Real,
    pub resblock: usize,
    pub resblock_kernel_sizes: Vec<usize>,
    pub resblock_dilation_sizes: Vec<Vec<usize>>,
    pub upsample_rates: Vec<usize>,
    pub upsample_initial_channel: usize,
    pub upsample_kernel_sizes: Vec<usize>,
    pub n_speakers: usize,
    pub gin_channels: usize,
    pub use_sdp: bool,
}

/// The network that turns phonemes into samples.
#[derive(Debug)]
pub struct SynthesizerTrn {
    pub enc_p: TextEncoder,
    pub dec: Generator,
    pub enc_q: PosteriorEncoder,
    pub flow: ResidualCouplingBlock,
    pub dp: SynthesizerTrnLayers,
    pub emb_g: Option<Embedding>,
    pub n_speakers: usize,
}

/// A list of the same lists of numbers.
pub fn copied_lists(list: &Vec<Vec<usize>>) -> (r: Vec<Vec<usize>>)
    ensures
        r.len() == list.len(),
        forall|i: int| 0 <= i < list.len() ==> (#[trigger] r@[i])@ == list@[i]@,
{
    let mut copy: Vec<Vec<usize>> = Vec::new();
    let mut i: usize = 0;
    while i < list.len()
        invariant
            i <= list.len(),
            copy.len() == i,
            forall|a: int| 0 <= a < i ==> (#[trigger] copy@[a])@ == list@[a]@,
        decreases list.len() - i,
    {
        copy.push(copied(&list[i]));
        i += 1;
    }
    copy
}

impl SynthesizerTrnCofnig {
    /// One speaker, no conditioning, and durations that vary.
    pub fn new(
        n_vocab: usize,
        spec_channels: usize,
        segment_size: usize,
        inter_channels: usize,
        hidden_channels: usize,
        filter_channels: usize,
        n_heads: usize,
        n_layers: usize,
        kernel_size: usize,
        p_dropout: Real,
        resblock: usize,
        resblock_kernel_sizes: Vec<usize>,
        resblock_dilation_sizes: Vec<Vec<usize>>,
        upsample_rates: Vec<usize>,
        upsample_initial_channel: usize,
        upsample_kernel_sizes: Vec<usize>,
    ) -> (r: SynthesizerTrnCofnig)
        ensures
            r == (SynthesizerTrnCofnig {
                n_vocab,
                spec_channels,
                segment_size,
                inter_channels,
                hidden_channels,
                filter_channels,
                n_heads,
                n_layers,
                kernel_size,
                p_dropout,
                resblock,
                resblock_kernel_sizes,
                resblock_dilation_sizes,
                upsample_rates,
                upsample_initial_channel,
                upsample_kernel_sizes,
                n_speakers: 1,
                gin_channels: 0,
                use_sdp: true,
            }),
    {
        SynthesizerTrnCofnig {
            n_vocab,
            spec_channels,
            segment_size,
            inter_channels,
            hidden_channels,
            filter_channels,
            n_heads,
            n_layers,
            kernel_size,
            p_dropout,
            resblock,
            resblock_kernel_sizes,
            resblock_dilation_sizes,
            upsample_rates,
            upsample_initial_channel,
            upsample_kernel_sizes,
            n_speakers: 1,
            gin_channels: 0,
            use_sdp: true,
        }
    }

    pub fn with_n_speakers(self, n_speakers: usize) -> (r: SynthesizerTrnCofnig)
        ensures
            r == (SynthesizerTrnCofnig { n_speakers, ..self }),
    {
        SynthesizerTrnCofnig { n_speakers, ..self }
    }

    pub fn with_gin_channels(self, gin_channels: usize) -> (r: SynthesizerTrnCofnig)
        ensures
            r == (SynthesizerTrnCofnig { gin_channels, ..self }),
    {
        SynthesizerTrnCofnig { gin_channels, ..self }
    }

    pub fn with_use_sdp(self, use_sdp: bool) -> (r: SynthesizerTrnCofnig)
        ensures
            r == (SynthesizerTrnCofnig { use_sdp, ..self }),
    {
        SynthesizerTrnCofnig { use_sdp, ..self }
    }

    pub open spec fn enc_p(self) -> TextEncoderConfig {
        TextEncoderConfig {
            n_vocab: self.n_vocab,
            out_channels: self.inter_channels,
            hidden_channels: self.hidden_channels,
            filter_channels: self.filter_channels,
            n_heads: self.n_heads,
            n_layers: self.n_layers,
            kernel_size: self.kernel_size,
            p_dropout: self.p_dropout,
        }
    }

    pub open spec fn dec(self) -> GeneratorConfig {
        GeneratorConfig {
            initial_channel: self.inter_channels,
            resblock: self.resblock,
            resblock_kernel_sizes: self.resblock_kernel_sizes,
            resblock_dilation_sizes: self.resblock_dilation_sizes,
            upsample_rates: self.upsample_rates,
            upsample_initial_channel: self.upsample_initial_channel,
            upsample_kernel_sizes: self.upsample_kernel_sizes,
            gin_channels: self.gin_channels,
        }
    }

    pub open spec fn enc_q(self) -> PosteriorEncoderConfig {
        PosteriorEncoderConfig {
            in_channels: self.spec_channels,
            out_channels: self.inter_channels,
            hidden_channels: self.hidden_channels,
            kernel_size: 5,
            dilation_rate: 1,
            n_layers: 16,
            gin_channels: self.gin_channels,
        }
    }

    pub open spec fn flow(self) -> ResidualCouplingBlockConfig {
        ResidualCouplingBlockConfig {
            channels: self.inter_channels,
            hidden_channels: self.hidden_channels,
            kernel_size: 5,
            dilation_rate: 1,
            n_layers: 4,
            n_flows: 4,
            gin_channels: self.gin_channels,
        }
    }

    pub open spec fn dp(self) -> StochasticDurationPredictorConfig {
        StochasticDurationPredictorConfig {
            in_channels: self.hidden_channels,
            filter_channels: 192,
            kernel_size: 3,
            p_dropout: Real { bits: HALF },
            n_flows: 4,
            gin_channels: self.gin_channels,
        }
    }

    /// Whether the network can be made. The predictor without noise cannot.
    pub open spec fn valid(self) -> bool {
        &&& self.enc_p().valid()
        &&& self.dec().valid()
        &&& self.enc_q().valid()
        &&& self.flow().valid()
        &&& self.use_sdp
    }

    /// Whether `module` is the network with these settings, at a path.
    pub open spec fn describes(self, path: Path, module: SynthesizerTrn) -> bool {
        &&& self.enc_p().describes(path.field_expr("enc_p"), module.enc_p)
        &&& self.dec().describes(path.field_expr("dec"), module.dec)
        &&& self.enc_q().describes(path.field_expr("enc_q"), module.enc_q)
        &&& self.flow().describes(path.field_expr("flow"), module.flow)
        &&& module.dp matches SynthesizerTrnLayers::StochasticDurationPredictor(sdp)
        &&& self.dp().describes(path.field_expr("dp"), sdp)
        &&& module.emb_g == if self.n_speakers > 1 {
            Some(
                Embedding::built(
                    self.n_speakers,
                    self.gin_channels,
                    path.field_expr("emb_g"),
                ),
            )
        } else {
            None
        }
        &&& module.n_speakers == self.n_speakers
    }

    /// The network with these settings, at a path.
    pub fn init(&self, path: &Path) -> (r: SynthesizerTrn)
        requires
            self.valid(),
        ensures
            self.describes(*path, r),
            self.enc_p().encoder().divides() && self.n_speakers <= 1 ==> r.wf(),
            r.hidden_channels() == self.hidden_channels,
            r.inter_channels() == self.inter_channels,
            r.dec.cond is None <==> self.gin_channels == 0,
    {
        proof {
            assert(crate::wavenet::power(3, 1) == 3 && crate::wavenet::power(3, 2) == 9
                && crate::wavenet::power(3, 3) == 27) by {
                reveal_with_fuel(crate::wavenet::power, 5);
            }
        }
        let dec_config = GeneratorConfig::new(
            self.inter_channels,
            self.resblock,
            copied(&self.resblock_kernel_sizes),
            copied_lists(&self.resblock_dilation_sizes),
            copied(&self.upsample_rates),
            self.upsample_initial_channel,
            copied(&self.upsample_kernel_sizes),
            self.gin_channels,
        );
        proof {
            self.dec().lemma_same(dec_config, *path, arbitrary());
        }
        let dec = dec_config.init(&path.field("dec"));
        proof {
            dec_config.lemma_same(self.dec(), path.field_expr("dec"), dec);
        }
        SynthesizerTrn {
            enc_p: TextEncoderConfig::new(
                self.n_vocab,
                self.inter_channels,
                self.hidden_channels,
                self.filter_channels,
                self.n_heads,
                self.n_layers,
                self.kernel_size,
                self.p_dropout,
            ).init(&path.field("enc_p")),
            dec,
            enc_q: PosteriorEncoderConfig::new(
                self.spec_channels,
                self.inter_channels,
                self.hidden_channels,
                5,
                1,
                16,
                self.gin_channels,
            ).init(&path.field("enc_q")),
            flow: ResidualCouplingBlockConfig::new(
                self.inter_channels,
                self.hidden_channels,
                5,
                1,
                4,
                self.gin_channels,
            ).init(&path.field("flow")),
            dp: SynthesizerTrnLayers::StochasticDurationPredictor(
                StochasticDurationPredictorConfig::new(
                    self.hidden_channels,
                    192,
                    3,
                    Real::from_bits(HALF),
                    4,
                    self.gin_channels,
                ).init(&path.field("dp")),
            ),
            emb_g: if self.n_speakers > 1 {
                Some(Embedding::init(self.n_speakers, self.gin_channels, &path.field("emb_g")))
            } else {
                None
            },
            n_speakers: self.n_speakers,
        }
    }
}

/// What is known before the number of frames is: the durations of the phonemes in frames, the
/// numbers of frames of the rows, the mask of the phonemes, and the means and spreads of the
/// prior for each phoneme.
#[derive(Debug)]
pub struct Prediction {
    pub w_ceil: Tensor,
    pub y_lengths: Tensor,
    pub x_mask: Tensor,
    pub m_p: Tensor,
    pub logs_p: Tensor,
}

impl Prediction {
    /// Whether this is known of one row of `length` phonemes, with means of `channels` channels.
    pub open spec fn wf(self, length: usize, channels: usize) -> bool {
        &&& self.w_ceil.is_signal()
        &&& self.w_ceil.shape == Shape::D3(1, 1, length)
        &&& self.y_lengths.wf()
        &&& self.y_lengths.kind == Kind::Int
        &&& self.y_lengths.shape == Shape::D1(1)
        &&& self.x_mask.is_signal()
        &&& self.x_mask.shape == Shape::D3(1, 1, length)
        &&& self.m_p.is_signal()
        &&& self.m_p.shape == Shape::D3(1, channels, length)
        &&& self.logs_p.is_signal()
        &&& self.logs_p.shape == Shape::D3(1, channels, length)
    }
}

/// How many of `frames` frames are decoded under a limit, which counts from zero.
pub open spec fn kept_frames(max_len: Option<usize>, frames: usize) -> usize {
    match max_len {
        Some(val) => if val < frames {
            (val + 1) as usize
        } else {
            frames
        },
        None => frames,
    }
}

impl SynthesizerTrn {
    pub open spec fn hidden_channels(self) -> usize {
        self.enc_p.hidden_channels
    }

    pub open spec fn inter_channels(self) -> usize {
        self.enc_p.out_channels
    }

    /// The predictor of durations.
    pub open spec fn sdp(self) -> StochasticDurationPredictor {
        self.dp->StochasticDurationPredictor_0
    }

    /// The parts fit together, and there is one speaker, so that there is no condition.
    pub open spec fn wf(self) -> bool {
        &&& self.enc_p.wf()
        &&& self.dp is StochasticDurationPredictor
        &&& self.sdp().wf(self.hidden_channels())
        &&& self.flow.wf(self.inter_channels())
        &&& self.n_speakers <= 1
    }

    /// Whether the durations of `length` phonemes can be predicted.
    pub open spec fn takes_length(self, length: usize) -> bool {
        self.enc_p.encoder.takes_length(length) && self.sdp().takes(1, length)
    }

    /// The logarithms of the durations are turned into whole numbers of frames, upwards.
    pub open spec fn predict_expr(
        self,
        x: Tensor,
        x_lengths: Tensor,
        length_scale: Real,
        noise_scale_w: Real,
    ) -> Prediction {
        let (x, m_p, logs_p, x_mask) = self.enc_p.forward_expr(x, x_lengths);
        let logw = self.sdp().forward_expr(x, x_mask, None, noise_scale_w);
        let w = logw.unary_expr(UnaryOp::Exp).times_expr(x_mask).scalar_expr(
            ScalarOp::Mul,
            Scalar::Literal(length_scale),
        );
        let w_ceil = w.unary_expr(UnaryOp::Ceil);
        let y_lengths = w_ceil.sum_dim_expr(1).sum_dim_expr(2).reshape_expr(
            Shape::D1(1),
        ).scalar_expr(ScalarOp::ClampMin, Scalar::literal_expr(ONE)).unary_expr(UnaryOp::ToInt);
        Prediction { w_ceil, y_lengths, x_mask, m_p, logs_p }
    }

    /// The durations of the phonemes `x`, with what is needed to synthesise them. The number of
    /// frames is the greatest of the predicted `y_lengths`.
    pub fn predict(
        &self,
        x: Tensor,
        x_lengths: Tensor,
        length_scale: Real,
        noise_scale_w: Real,
    ) -> (r: Prediction)
        requires
            self.wf(),
            x.wf(),
            x.kind == Kind::Int,
            x.shape == Shape::D2(1, x.at(1)),
            self.takes_length(x.at(1)),
            x_lengths.wf(),
            x_lengths.kind == Kind::Int,
            x_lengths.shape == Shape::D1(1),
        ensures
            r == self.predict_expr(x, x_lengths, length_scale, noise_scale_w),
            r.wf(x.at(1), self.inter_channels()),
    {
        let (x, m_p, logs_p, x_mask) = self.enc_p.forward(x, x_lengths);
        let logw = self.dp.forward(x, x_mask.clone(), None, None, true, noise_scale_w);
        let w = logw.unary(UnaryOp::Exp).times(x_mask.clone()).scalar(
            ScalarOp::Mul,
            Scalar::Literal(length_scale),
        );
        let w_ceil = w.unary(UnaryOp::Ceil);
        let summed = w_ceil.clone().sum_dim(1).sum_dim(2);
        proof {
            assert(1 * 1 * 1 == 1);
        }
        let y_lengths = summed.reshape(Shape::D1(1)).scalar(
            ScalarOp::ClampMin,
            Scalar::literal(ONE),
        ).unary(UnaryOp::ToInt);
        Prediction { w_ceil, y_lengths, x_mask, m_p, logs_p }
    }

    /// Which frame belongs to which phoneme.
    pub open spec fn alignment_expr(prediction: Prediction, y_mask: Tensor) -> Tensor {
        generate_path_expr(
            prediction.w_ceil,
            prediction.x_mask.unsqueeze_expr(2).times_expr(y_mask.unsqueeze_expr(3)),
        )
    }

    /// What is known of phonemes, spread over the frames that belong to them.
    pub open spec fn spread_expr(attn: Tensor, known: Tensor) -> Tensor {
        attn.squeeze_expr(1).matmul_expr(known.swap_dims_expr(1, 2)).swap_dims_expr(1, 2)
    }

    /// The latent frames before the flow.
    pub open spec fn prior_expr(
        prediction: Prediction,
        y_mask: Tensor,
        noise_scale: Real,
    ) -> Tensor {
        let attn = SynthesizerTrn::alignment_expr(prediction, y_mask);
        let m_p = SynthesizerTrn::spread_expr(attn, prediction.m_p);
        let logs_p = SynthesizerTrn::spread_expr(attn, prediction.logs_p);
        m_p.plus_expr(
            Tensor::noise_expr(Noise::Prior, m_p.shape).times_expr(
                logs_p.unary_expr(UnaryOp::Exp),
            ).scalar_expr(ScalarOp::Mul, Scalar::Literal(noise_scale)),
        )
    }

    pub open spec fn decode_expr(
        self,
        prediction: Prediction,
        frames: usize,
        noise_scale: Real,
        max_len: Option<usize>,
    ) -> Tensor {
        let y_mask = crate::encoder::signal_mask_expr(prediction.y_lengths, frames);
        let z_p = SynthesizerTrn::prior_expr(prediction, y_mask, noise_scale);
        let z = self.flow.forward_expr(z_p, y_mask, None, true);
        self.dec.forward_expr(
            z.times_expr(y_mask).slice_expr(2, 0, kept_frames(max_len, frames)),
            None,
        )
    }

    /// The shape of the frames that are decoded.
    pub open spec fn kept_shape(self, frames: usize, max_len: Option<usize>) -> Shape {
        Shape::D3(1, self.inter_channels(), kept_frames(max_len, frames))
    }

    /// Whether `frames` frames can be synthesised of `length` phonemes.
    pub open spec fn takes_frames(
        self,
        length: usize,
        frames: usize,
        max_len: Option<usize>,
    ) -> bool {
        &&& length < usize::MAX
        &&& frames >= 1
        &&& max_len matches Some(val) ==> val < isize::MAX
        &&& self.flow.takes(
            Shape::D3(1, self.inter_channels(), frames),
            Shape::D3(1, 1, frames),
            None,
        )
        &&& self.dec.takes_shape(self.kept_shape(frames, max_len), None)
    }

    /// The samples of the predicted phonemes, which last `frames` frames; at most one frame more
    /// than `max_len` is decoded.
    pub fn decode(
        &self,
        prediction: &Prediction,
        frames: usize,
        noise_scale: Real,
        max_len: Option<usize>,
    ) -> (r: Tensor)
        requires
            self.wf(),
            prediction.wf(prediction.w_ceil.at(2), self.inter_channels()),
            self.takes_frames(prediction.w_ceil.at(2), frames, max_len),
        ensures
            r == self.decode_expr(*prediction, frames, noise_scale, max_len),
            r.is_signal(),
            r.shape == self.dec.shape_out(self.kept_shape(frames, max_len), None),
    {
        let y_mask = signal_mask(prediction.y_lengths.clone(), frames);
        let attn_mask = prediction.x_mask.clone().unsqueeze_dim(2).times(
            y_mask.clone().unsqueeze_dim(3),
        );
        proof {
            vstd::arithmetic::mul::lemma_mul_basics(prediction.w_ceil.at(2) as int);
        }
        let attn = generate_path(prediction.w_ceil.clone(), attn_mask);
        let m_p = attn.clone().squeeze_dim(1).matmul(
            prediction.m_p.clone().swap_dims(1, 2),
        ).swap_dims(1, 2);
        let logs_p = attn.squeeze_dim(1).matmul(
            prediction.logs_p.clone().swap_dims(1, 2),
        ).swap_dims(1, 2);
        let noise = Tensor::noise(Noise::Prior, m_p.shape);
        let z_p = m_p.plus(
            noise.times(logs_p.unary(UnaryOp::Exp)).scalar(
                ScalarOp::Mul,
                Scalar::Literal(noise_scale),
            ),
        );
        let z = self.flow.forward(z_p, y_mask.clone(), None, true);
        let kept: usize = match max_len {
            Some(val) => if val < frames {
                val + 1
            } else {
                frames
            },
            None => frames,
        };
        self.dec.forward(z.times(y_mask).slice(2, 0, kept), None)
    }

    /// The samples of the phonemes `x`, where `frames` is the greatest of the predicted numbers of
    /// frames. With a single speaker, `sid` is not looked at.
    pub fn infer(
        &self,
        x: Tensor,
        x_lengths: Tensor,
        noise_scale: Real,
        length_scale: Real,
        noise_scale_w: Real,
        sid: Option<usize>,
        max_len: Option<usize>,
        frames: usize,
    ) -> (r: Tensor)
        requires
            self.wf(),
            x.wf(),
            x.kind == Kind::Int,
            x.shape == Shape::D2(1, x.at(1)),
            self.takes_length(x.at(1)),
            x_lengths.wf(),
            x_lengths.kind == Kind::Int,
            x_lengths.shape == Shape::D1(1),
            self.takes_frames(x.at(1), frames, max_len),
        ensures
            r == self.decode_expr(
                self.predict_expr(x, x_lengths, length_scale, noise_scale_w),
                frames,
                noise_scale,
                max_len,
            ),
            r.is_signal(),
            r.shape == self.dec.shape_out(self.kept_shape(frames, max_len), None),
    {
        let prediction = self.predict(x, x_lengths, length_scale, noise_scale_w);
        self.decode(&prediction, frames, noise_scale, max_len)
    }
}

impl SynthesizerTrn {
    /// Whether the durations of `length` phonemes can be predicted.
    pub fn accepts_length(&self, length: usize) -> (r: bool)
        requires
            self.wf(),
        ensures
            r == self.takes_length(length),
    {
        match &self.dp {
            SynthesizerTrnLayers::StochasticDurationPredictor(sdp) => {
                self.enc_p.encoder.accepts_length(length) && sdp.accepts(1, length)
            },
            SynthesizerTrnLayers::DurationPredictor(_) => vstd::pervasive::unreached(),
        }
    }

    /// Whether `frames` frames can be synthesised of `length` phonemes.
    pub fn accepts_frames(&self, length: usize, frames: usize, max_len: Option<usize>) -> (r: bool)
        requires
            self.wf(),
        ensures
            r == self.takes_frames(length, frames, max_len),
    {
        let channels: usize = self.enc_p.out_channels;
        let kept: usize = match max_len {
            Some(val) => {
                let wide: u128 = val as u128;
                if !(wide < isize::MAX as u128) {
                    return false;
                }
                if val < frames {
                    val + 1
                } else {
                    frames
                }
            },
            None => frames,
        };
        length < usize::MAX && frames >= 1 && self.flow.accepts_length(channels, frames)
            && self.dec.accepts(&Shape::D3(1, channels, kept))
    }
}

// Which frame belongs to which phoneme.

/// How long phoneme `k` of row `b` lasts.
pub open spec fn lasts(
    duration: Tensor,
    b: int,
    k: int,
    leaf: spec_fn(Tensor, Seq<int>) -> int,
) -> int {
    crate::element::element(duration, seq![b, 0, k], leaf)
}

/// The frame after the last of phoneme `x` of row `b`.
pub open spec fn ends(
    duration: Tensor,
    b: int,
    x: int,
    leaf: spec_fn(Tensor, Seq<int>) -> int,
) -> int {
    crate::element::running_sum(duration, 2, seq![b, 0, 0], (x + 1) as nat, leaf)
}

/// Whether frame `y` belongs to phoneme `x`: it comes after those of the phonemes before it.
pub open spec fn belongs(
    duration: Tensor,
    b: int,
    y: int,
    x: int,
    leaf: spec_fn(Tensor, Seq<int>) -> int,
) -> bool {
    ends(duration, b, x - 1, leaf) <= y < ends(duration, b, x, leaf)
}

/// Whether no phoneme of row `b` lasts for less than no time.
pub open spec fn lasting(
    duration: Tensor,
    b: int,
    leaf: spec_fn(Tensor, Seq<int>) -> int,
) -> bool {
    forall|k: int| 0 <= k < duration.at(2) ==> #[trigger] lasts(duration, b, k, leaf) >= 0
}

/// Each phoneme ends its duration after the one before it.
pub proof fn lemma_ends(
    duration: Tensor,
    b: int,
    x: int,
    leaf: spec_fn(Tensor, Seq<int>) -> int,
)
    requires
        x >= 0,
    ensures
        ends(duration, b, x, leaf) == ends(duration, b, x - 1, leaf) + lasts(
            duration,
            b,
            x,
            leaf,
        ),
        ends(duration, b, -1, leaf) == 0,
{
    assert(seq![b, 0, 0].update(2, x) =~= seq![b, 0, x]);
}

/// Later phonemes do not end earlier.
proof fn lemma_ends_ordered(
    duration: Tensor,
    b: int,
    x1: int,
    x2: int,
    leaf: spec_fn(Tensor, Seq<int>) -> int,
)
    requires
        -1 <= x1 <= x2 < duration.at(2),
        lasting(duration, b, leaf),
    ensures
        ends(duration, b, x1, leaf) <= ends(duration, b, x2, leaf),
    decreases x2 - x1,
{
    if x1 < x2 {
        lemma_ends_ordered(duration, b, x1, x2 - 1, leaf);
        lemma_ends(duration, b, x2, leaf);
        assert(lasts(duration, b, x2, leaf) >= 0);
    }
}

/// Every frame before the end of the last phoneme belongs to one phoneme, and to no other.
pub proof fn lemma_one_phoneme_per_frame(
    duration: Tensor,
    b: int,
    y: int,
    leaf: spec_fn(Tensor, Seq<int>) -> int,
)
    requires
        lasting(duration, b, leaf),
        0 <= y < ends(duration, b, duration.at(2) - 1, leaf),
    ensures
        exists|x: int| 0 <= x < duration.at(2) && #[trigger] belongs(duration, b, y, x, leaf),
        forall|x1: int, x2: int|
            0 <= x1 < duration.at(2) && 0 <= x2 < duration.at(2) && #[trigger] belongs(
                duration,
                b,
                y,
                x1,
                leaf,
            ) && #[trigger] belongs(duration, b, y, x2, leaf) ==> x1 == x2,
{
    lemma_ends(duration, b, 0, leaf);
    lemma_some_phoneme(duration, b, y, duration.at(2) - 1, leaf);
    assert forall|x1: int, x2: int|
        0 <= x1 < duration.at(2) && 0 <= x2 < duration.at(2) && #[trigger] belongs(
            duration,
            b,
            y,
            x1,
            leaf,
        ) && #[trigger] belongs(duration, b, y, x2, leaf) implies x1 == x2 by {
        if x1 < x2 {
            lemma_ends_ordered(duration, b, x1, x2 - 1, leaf);
        } else if x2 < x1 {
            lemma_ends_ordered(duration, b, x2, x1 - 1, leaf);
        }
    }
}

/// A frame before the end of phoneme `last` belongs to that phoneme or to one before it.
proof fn lemma_some_phoneme(
    duration: Tensor,
    b: int,
    y: int,
    last: int,
    leaf: spec_fn(Tensor, Seq<int>) -> int,
)
    requires
        -1 <= last < duration.at(2),
        0 <= y < ends(duration, b, last, leaf),
        ends(duration, b, -1, leaf) == 0,
    ensures
        exists|x: int| 0 <= x <= last && #[trigger] belongs(duration, b, y, x, leaf),
    decreases last + 1,
{
    if y < ends(duration, b, last - 1, leaf) && last >= 0 {
        lemma_some_phoneme(duration, b, y, last - 1, leaf);
        let x = choose|x: int|
            0 <= x <= last - 1 && #[trigger] belongs(duration, b, y, x, leaf);
        assert(belongs(duration, b, y, x, leaf));
    } else {
        assert(last >= 0);
        assert(belongs(duration, b, y, last, leaf));
    }
}

/// Whether frame `y` comes before the end of phoneme `x`.
proof fn lemma_started(
    duration: Tensor,
    rows: usize,
    t_x: usize,
    t_y: usize,
    b: int,
    x: int,
    y: int,
    leaf: spec_fn(Tensor, Seq<int>) -> int,
)
    requires
        duration.shape == Shape::D3(rows, 1, t_x),
        rows * t_x <= usize::MAX,
        0 <= b < rows,
        0 <= x < t_x,
        0 <= y < t_y,
    ensures
        crate::element::element(
            started_expr(duration, rows, t_x, t_y),
            seq![b, x, y],
            leaf,
        ) == crate::element::truth(y < ends(duration, b, x, leaf)),
        started_expr(duration, rows, t_x, t_y).shape == Shape::D3(rows, t_x, t_y),
{
    reveal(Tensor::reshape_expr);
    reveal(Tensor::cumsum_expr);
    let n = (rows * t_x) as usize;
    let sums = duration.cumsum_expr(2);
    let line = sums.reshape_expr(Shape::D1(n));
    let whole = line.unary_expr(UnaryOp::ToInt);
    let mask = crate::encoder::sequence_mask_expr(whole, t_y);
    let numbers = mask.unary_expr(UnaryOp::ToFloat);
    let row = b * t_x + x;
    assert(0 <= row < n) by (nonlinear_arith)
        requires
            row == b * t_x + x,
            n == rows * t_x,
            0 <= b < rows,
            0 <= x < t_x,
    ;
    assert((b * 1 + 0) * t_x + x == row) by (nonlinear_arith)
        requires
            row == b * t_x + x,
    ;
    crate::element::lemma_convert(line, UnaryOp::ToInt, seq![row], leaf);
    crate::encoder::lemma_sequence_mask(whole, t_y, row, y, leaf);
    crate::element::lemma_convert(mask, UnaryOp::ToFloat, seq![row, y], leaf);
    crate::element::lemma_reshape(
        numbers,
        Shape::D3(rows, t_x, t_y),
        seq![b, x, y],
        seq![row, y],
        leaf,
    );
    crate::element::lemma_reshape(sums, Shape::D1(n), seq![row], seq![b, 0, x], leaf);
    crate::element::lemma_running_sum(
        duration,
        2,
        seq![b, 0, x],
        seq![b, 0, 0],
        (x + 1) as nat,
        leaf,
    );
}

/// Within the mask, the path joins a frame to a phoneme just where the frame belongs to it.
pub proof fn lemma_path(
    duration: Tensor,
    mask: Tensor,
    b: int,
    c: int,
    y: int,
    x: int,
    leaf: spec_fn(Tensor, Seq<int>) -> int,
)
    requires
        mask.shape.rank() == 4,
        duration.shape == Shape::D3(mask.at(0), 1, mask.at(3)),
        mask.at(0) * mask.at(3) <= usize::MAX,
        mask.at(3) < usize::MAX,
        lasting(duration, b, leaf),
        0 <= b < mask.at(0),
        0 <= c < mask.at(1),
        0 <= y < mask.at(2),
        0 <= x < mask.at(3),
    ensures
        crate::element::element(
            generate_path_expr(duration, mask),
            seq![b, c, y, x],
            leaf,
        ) == crate::element::truth(belongs(duration, b, y, x, leaf)) * crate::element::element(
            mask,
            seq![b, c, y, x],
            leaf,
        ),
{
    reveal(Tensor::pad_expr);
    reveal(Tensor::slice_expr);
    reveal(Tensor::binary_expr);
    reveal(Tensor::swap_dims_expr);
    reveal(Tensor::reshape_expr);
    let (rows, t_y, t_x) = (mask.at(0), mask.at(2), mask.at(3));
    let started = started_expr(duration, rows, t_x, t_y);
    let padded = started.pad_expr(1, 1, 0);
    let before = padded.slice_expr(1, 0, t_x);
    let path = started.minus_expr(before);
    let raised = path.unsqueeze_expr(1);
    let turned = raised.swap_dims_expr(2, 3);
    let idx = seq![b, x, y];
    lemma_started(duration, rows, t_x, t_y, b, x, y, leaf);
    crate::element::lemma_slice(padded, 1, 0, t_x, idx, leaf);
    assert(idx.update(1, x + 0) =~= idx);
    crate::element::lemma_pad(started, 1, 1, 0, idx, leaf);
    assert(idx.update(1, x - 1) =~= seq![b, x - 1, y]);
    lemma_ends(duration, b, x, leaf);
    assert(lasts(duration, b, x, leaf) >= 0);
    if x >= 1 {
        lemma_started(duration, rows, t_x, t_y, b, x - 1, y, leaf);
    } else {
        lemma_ends(duration, b, 0, leaf);
    }
    crate::element::lemma_binary(
        crate::tensor::BinaryOp::Sub,
        started,
        before,
        idx,
        leaf,
    );
    assert(((b * 1 + 0) * t_x + x) * t_y + y == (b * t_x + x) * t_y + y) by (nonlinear_arith);
    crate::element::lemma_reshape(
        path,
        Shape::D4(rows, 1, t_x, t_y),
        seq![b, 0, x, y],
        idx,
        leaf,
    );
    let at = seq![b, 0, y, x];
    assert(at.update(2, at[3]).update(3, at[2]) =~= seq![b, 0, x, y]);
    let given = seq![b, c, y, x];
    assert(crate::element::unstretched(turned.shape, given) =~= at);
    crate::element::lemma_unstretched(mask.shape, given);
    assert(crate::element::element(turned.times_expr(mask), given, leaf)
        == crate::element::element(turned, at, leaf) * crate::element::element(mask, given, leaf));
    assert(crate::element::element(turned, at, leaf) == crate::element::element(
        raised,
        seq![b, 0, x, y],
        leaf,
    ));
}

// Whether a network can be made.

impl SynthesizerTrnCofnig {
    /// Whether the network can be made.
    pub fn accepts(&self) -> (r: bool)
        ensures
            r == self.valid(),
    {
        let enc_p = TextEncoderConfig::new(
            self.n_vocab,
            self.inter_channels,
            self.hidden_channels,
            self.filter_channels,
            self.n_heads,
            self.n_layers,
            self.kernel_size,
            self.p_dropout,
        );
        let dec = GeneratorConfig::new(
            self.inter_channels,
            self.resblock,
            copied(&self.resblock_kernel_sizes),
            copied_lists(&self.resblock_dilation_sizes),
            copied(&self.upsample_rates),
            self.upsample_initial_channel,
            copied(&self.upsample_kernel_sizes),
            self.gin_channels,
        );
        proof {
            self.dec().lemma_same(dec, Path::Root, arbitrary());
            dec.lemma_same(self.dec(), Path::Root, arbitrary());
        }
        let enc_q = WNConfig::new(self.hidden_channels, 5, 1, 16).with_gin_channels(
            self.gin_channels,
        );
        let flow = WNConfig::new(self.hidden_channels, 5, 1, 4).with_gin_channels(
            self.gin_channels,
        );
        self.use_sdp && enc_p.accepts() && dec.accepts() && enc_q.accepts_undilated()
            && product_fits(self.inter_channels, 2) && self.inter_channels % 2 == 0
            && flow.accepts_undilated()
    }

    /// Whether the network, once it is made, can speak: the channels divide among the heads, and
    /// there is one speaker.
    pub fn is_speaking(&self) -> (r: bool)
        requires
            self.valid(),
        ensures
            r == (self.enc_p().encoder().divides() && self.n_speakers <= 1),
    {
        let enc_p = TextEncoderConfig::new(
            self.n_vocab,
            self.inter_channels,
            self.hidden_channels,
            self.filter_channels,
            self.n_heads,
            self.n_layers,
            self.kernel_size,
            self.p_dropout,
        );
        enc_p.make_encoder().is_divided() && self.n_speakers <= 1
    }
}

} // verus!

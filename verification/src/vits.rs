//! The settings of a voice and the model that they make.

use crate::discriminator::{MultiPeriodDiscriminator, MultiPeriodDiscriminatorConfig};
use crate::generator::multiplied;
use crate::id_map::IdMap;
use crate::number::{Real, Real32, ONE};
use crate::param::Path;
use crate::shape::Shape;
use crate::synthesizer::{SynthesizerTrn, SynthesizerTrnCofnig};
use crate::tensor::{Kind, Tensor};
use vstd::prelude::*;

verus! {

/// 0.1
pub const P_DROPOUT: u64 = 0x3FB9_9999_9999_999A;

/// 0.667
pub const NOISE_SCALE: u64 = 0x3FE5_5810_624D_D2F2;

/// 0.8
pub const NOISE_W: u64 = 0x3FE9_9999_9999_999A;

/// The settings of a voice.
#[derive(Debug)]
pub struct VitsConfig {
    pub batch_size: usize,
    pub sample_rate: usize,
    pub num_symbols: usize,
    pub num_speakers: usize,
    pub resblock: usize,
    pub resblock_kernel_sizes: Vec<usize>,
    pub resblock_dilation_sizes: Vec<Vec<usize>>,
    pub upsample_rates: Vec<usize>,
    pub upsample_initial_channel: usize,
    pub upsample_kernel_sizes: Vec<usize>,
    pub filter_length: usize,
    pub hop_length: usize,
    pub win_length: usize,
    pub mel_channels: usize,
    pub mel_fmin: Real32,
    pub mel_fmax: Option<Real32>,
    pub inter_channels: usize,
    pub hidden_channels: usize,
    pub filter_channels: usize,
    pub n_heads: usize,
    pub n_layers: usize,
    pub kernel_size: usize,
    pub p_dropout: Real,
    pub n_layers_q: usize,
    pub use_spectral_norm: bool,
    pub gin_channels: usize,
    pub use_sdp: bool,
    pub segment_size: usize,
    pub learning_rate: Real32,
    pub learning_rate_d: Real32,
    pub betas: (Real32, Real32),
    pub betas_d: (Real32, Real32),
    pub eps: Real32,
    pub lr_decay: Real32,
    pub lr_decay_d: Real32,
    pub init_lr_ratio: Real32,
    pub warmup_epochs: usize,
    pub c_mel: usize,
    pub c_kl: Real32,
    pub grad_clip: Option<Real32>,
    pub vocoder_warmstart_ckpt: Option<String>,
    pub dataset: Option<()>,
    pub phoneme_id_map: Option<IdMap>,
    pub name: String,
    pub quality: String,
    pub espeak_voice: String,
    pub inference_noise_scale: Real,
    pub inference_length_scale: Real,
    pub inference_noise_w: Real,
    pub speaker_id_map: Option<IdMap>,
}

/// A model that speaks with a voice.
#[derive(Debug)]
pub struct VitsModel {
    pub model_g: SynthesizerTrn,
    pub model_d: MultiPeriodDiscriminator,
    pub sample_rate: usize,
}

/// Why settings make no model.
#[derive(Clone, Copy, PartialEq, Eq, Debug, Structural)]
pub enum ModelError {
    /// The rates of upsampling do not multiply to the samples of a frame.
    HopLength,
    /// The parts of the network do not fit together, or its sizes are out of reach.
    Network,
}

/// How large the network of a voice is.
#[derive(Clone, Copy, PartialEq, Eq, Debug, Structural)]
pub enum Quality {
    High,
    Medium,
    Low,
}

impl Quality {
    /// The name of the quality.
    pub open spec fn label(self) -> Seq<char> {
        match self {
            Quality::High => "high"@,
            Quality::Medium => "medium"@,
            Quality::Low => "low"@,
        }
    }

    /// Whether the decoder has the shape that the quality calls for.
    pub open spec fn shapes(self, config: VitsConfig) -> bool {
        match self {
            Quality::High => {
                &&& config.resblock == 1
                &&& config.resblock_kernel_sizes@ == seq![3usize, 7, 11]
                &&& is_lists(
                    config.resblock_dilation_sizes@,
                    seq![seq![1usize, 3, 5], seq![1usize, 3, 5], seq![1usize, 3, 5]],
                )
                &&& config.upsample_rates@ == seq![8usize, 8, 2, 2]
                &&& config.upsample_initial_channel == 512
                &&& config.upsample_kernel_sizes@ == seq![16usize, 16, 4, 4]
            },
            Quality::Medium | Quality::Low => {
                &&& config.resblock == 2
                &&& config.resblock_kernel_sizes@ == seq![3usize, 5, 7]
                &&& is_lists(
                    config.resblock_dilation_sizes@,
                    seq![seq![1usize, 2], seq![2usize, 6], seq![3usize, 12]],
                )
                &&& config.upsample_rates@ == seq![8usize, 8, 4]
                &&& config.upsample_initial_channel == 256
                &&& config.upsample_kernel_sizes@ == seq![16usize, 16, 8]
            },
        }
    }
}

/// Whether a list holds these lists of numbers.
pub open spec fn is_lists(list: Seq<Vec<usize>>, numbers: Seq<Seq<usize>>) -> bool {
    &&& list.len() == numbers.len()
    &&& forall|i: int| 0 <= i < list.len() ==> (#[trigger] list[i])@ == numbers[i]
}

impl VitsConfig {
    /// Whether the settings that are the same for every voice are what they always are.
    pub open spec fn shared(self) -> bool {
        &&& self.batch_size == 32
        &&& self.sample_rate == 22050
        &&& self.num_symbols == 256
        &&& self.filter_length == 1024
        &&& self.hop_length == 256
        &&& self.win_length == 1024
        &&& self.mel_channels == 80
        &&& self.mel_fmin.bits == 0
        &&& self.mel_fmax is None
        &&& self.inter_channels == 192
        &&& self.hidden_channels == 192
        &&& self.filter_channels == 768
        &&& self.n_heads == 2
        &&& self.n_layers == 6
        &&& self.kernel_size == 3
        &&& self.p_dropout.bits == P_DROPOUT
        &&& self.n_layers_q == 3
        &&& !self.use_spectral_norm
        &&& self.gin_channels == 0
        &&& self.use_sdp
        &&& self.segment_size == 8192
        &&& self.learning_rate.bits == 0x3951_B717
        &&& self.learning_rate_d.bits == 0x38D1_B717
        &&& self.betas.0.bits == 0x3F4C_CCCD
        &&& self.betas.1.bits == 0x3F7D_70A4
        &&& self.betas_d.0.bits == 0x3F00_0000
        &&& self.betas_d.1.bits == 0x3F66_6666
        &&& self.eps.bits == 0x3089_705F
        &&& self.lr_decay.bits == 0x3F7F_F7CF
        &&& self.lr_decay_d.bits == 0x3F7F_F972
        &&& self.init_lr_ratio.bits == 0x3F80_0000
        &&& self.warmup_epochs == 0
        &&& self.c_mel == 45
        &&& self.c_kl.bits == 0x3F80_0000
        &&& self.grad_clip is None
        &&& self.vocoder_warmstart_ckpt is None
        &&& self.dataset is None
    }

    /// Whether these are the settings of a voice of medium quality with nothing else known of it.
    pub open spec fn usual(self) -> bool {
        &&& self.shared()
        &&& Quality::Medium.shapes(self)
        &&& self.num_speakers == 1
        &&& self.phoneme_id_map is None
        &&& self.name@ == "piper"@
        &&& self.quality@ == "medium"@
        &&& self.espeak_voice@ == "en-us"@
        &&& self.inference_noise_scale.bits == NOISE_SCALE
        &&& self.inference_length_scale.bits == ONE
        &&& self.inference_noise_w.bits == NOISE_W
        &&& self.speaker_id_map is None
    }

    /// The settings of a voice of medium quality, with nothing else known of it.
    pub fn new() -> (r: VitsConfig)
        ensures
            r.usual(),
    {
        VitsConfig {
            batch_size: 32,
            sample_rate: 22050,
            num_symbols: 256,
            num_speakers: 1,
            resblock: 2,
            resblock_kernel_sizes: vec![3, 5, 7],
            resblock_dilation_sizes: vec![vec![1, 2], vec![2, 6], vec![3, 12]],
            upsample_rates: vec![8, 8, 4],
            upsample_initial_channel: 256,
            upsample_kernel_sizes: vec![16, 16, 8],
            filter_length: 1024,
            hop_length: 256,
            win_length: 1024,
            mel_channels: 80,
            mel_fmin: Real32 { bits: 0 },
            mel_fmax: None,
            inter_channels: 192,
            hidden_channels: 192,
            filter_channels: 768,
            n_heads: 2,
            n_layers: 6,
            kernel_size: 3,
            p_dropout: Real { bits: P_DROPOUT },
            n_layers_q: 3,
            use_spectral_norm: false,
            gin_channels: 0,
            use_sdp: true,
            segment_size: 8192,
            learning_rate: Real32 { bits: 0x3951_B717 },
            learning_rate_d: Real32 { bits: 0x38D1_B717 },
            betas: (Real32 { bits: 0x3F4C_CCCD }, Real32 { bits: 0x3F7D_70A4 }),
            betas_d: (Real32 { bits: 0x3F00_0000 }, Real32 { bits: 0x3F66_6666 }),
            eps: Real32 { bits: 0x3089_705F },
            lr_decay: Real32 { bits: 0x3F7F_F7CF },
            lr_decay_d: Real32 { bits: 0x3F7F_F972 },
            init_lr_ratio: Real32 { bits: 0x3F80_0000 },
            warmup_epochs: 0,
            c_mel: 45,
            c_kl: Real32 { bits: 0x3F80_0000 },
            grad_clip: None,
            vocoder_warmstart_ckpt: None,
            dataset: None,
            phoneme_id_map: None,
            name: "piper".to_owned(),
            quality: "medium".to_owned(),
            espeak_voice: "en-us".to_owned(),
            inference_noise_scale: Real { bits: NOISE_SCALE },
            inference_length_scale: Real { bits: ONE },
            inference_noise_w: Real { bits: NOISE_W },
            speaker_id_map: None,
        }
    }

    pub fn with_batch_size(self, batch_size: usize) -> (r: VitsConfig)
        ensures
            r == (VitsConfig { batch_size, ..self }),
    {
        VitsConfig { batch_size, ..self }
    }

    pub fn with_sample_rate(self, sample_rate: usize) -> (r: VitsConfig)
        ensures
            r == (VitsConfig { sample_rate, ..self }),
    {
        VitsConfig { sample_rate, ..self }
    }

    pub fn with_num_symbols(self, num_symbols: usize) -> (r: VitsConfig)
        ensures
            r == (VitsConfig { num_symbols, ..self }),
    {
        VitsConfig { num_symbols, ..self }
    }

    pub fn with_filter_length(self, filter_length: usize) -> (r: VitsConfig)
        ensures
            r == (VitsConfig { filter_length, ..self }),
    {
        VitsConfig { filter_length, ..self }
    }

    pub fn with_hop_length(self, hop_length: usize) -> (r: VitsConfig)
        ensures
            r == (VitsConfig { hop_length, ..self }),
    {
        VitsConfig { hop_length, ..self }
    }

    pub fn with_win_length(self, win_length: usize) -> (r: VitsConfig)
        ensures
            r == (VitsConfig { win_length, ..self }),
    {
        VitsConfig { win_length, ..self }
    }

    pub fn with_mel_channels(self, mel_channels: usize) -> (r: VitsConfig)
        ensures
            r == (VitsConfig { mel_channels, ..self }),
    {
        VitsConfig { mel_channels, ..self }
    }

    pub fn with_mel_fmin(self, mel_fmin: Real32) -> (r: VitsConfig)
        ensures
            r == (VitsConfig { mel_fmin, ..self }),
    {
        VitsConfig { mel_fmin, ..self }
    }

    pub fn with_mel_fmax(self, mel_fmax: Option<Real32>) -> (r: VitsConfig)
        ensures
            r == (VitsConfig { mel_fmax, ..self }),
    {
        VitsConfig { mel_fmax, ..self }
    }

    pub fn with_inter_channels(self, inter_channels: usize) -> (r: VitsConfig)
        ensures
            r == (VitsConfig { inter_channels, ..self }),
    {
        VitsConfig { inter_channels, ..self }
    }

    pub fn with_hidden_channels(self, hidden_channels: usize) -> (r: VitsConfig)
        ensures
            r == (VitsConfig { hidden_channels, ..self }),
    {
        VitsConfig { hidden_channels, ..self }
    }

    pub fn with_filter_channels(self, filter_channels: usize) -> (r: VitsConfig)
        ensures
            r == (VitsConfig { filter_channels, ..self }),
    {
        VitsConfig { filter_channels, ..self }
    }

    pub fn with_n_heads(self, n_heads: usize) -> (r: VitsConfig)
        ensures
            r == (VitsConfig { n_heads, ..self }),
    {
        VitsConfig { n_heads, ..self }
    }

    pub fn with_n_layers(self, n_layers: usize) -> (r: VitsConfig)
        ensures
            r == (VitsConfig { n_layers, ..self }),
    {
        VitsConfig { n_layers, ..self }
    }

    pub fn with_kernel_size(self, kernel_size: usize) -> (r: VitsConfig)
        ensures
            r == (VitsConfig { kernel_size, ..self }),
    {
        VitsConfig { kernel_size, ..self }
    }

    pub fn with_p_dropout(self, p_dropout: Real) -> (r: VitsConfig)
        ensures
            r == (VitsConfig { p_dropout, ..self }),
    {
        VitsConfig { p_dropout, ..self }
    }

    pub fn with_n_layers_q(self, n_layers_q: usize) -> (r: VitsConfig)
        ensures
            r == (VitsConfig { n_layers_q, ..self }),
    {
        VitsConfig { n_layers_q, ..self }
    }

    pub fn with_use_spectral_norm(self, use_spectral_norm: bool) -> (r: VitsConfig)
        ensures
            r == (VitsConfig { use_spectral_norm, ..self }),
    {
        VitsConfig { use_spectral_norm, ..self }
    }

    pub fn with_gin_channels(self, gin_channels: usize) -> (r: VitsConfig)
        ensures
            r == (VitsConfig { gin_channels, ..self }),
    {
        VitsConfig { gin_channels, ..self }
    }

    pub fn with_use_sdp(self, use_sdp: bool) -> (r: VitsConfig)
        ensures
            r == (VitsConfig { use_sdp, ..self }),
    {
        VitsConfig { use_sdp, ..self }
    }

    pub fn with_segment_size(self, segment_size: usize) -> (r: VitsConfig)
        ensures
            r == (VitsConfig { segment_size, ..self }),
    {
        VitsConfig { segment_size, ..self }
    }

    pub fn with_learning_rate(self, learning_rate: Real32) -> (r: VitsConfig)
        ensures
            r == (VitsConfig { learning_rate, ..self }),
    {
        VitsConfig { learning_rate, ..self }
    }

    pub fn with_learning_rate_d(self, learning_rate_d: Real32) -> (r: VitsConfig)
        ensures
            r == (VitsConfig { learning_rate_d, ..self }),
    {
        VitsConfig { learning_rate_d, ..self }
    }

    pub fn with_betas(self, betas: (Real32, Real32)) -> (r: VitsConfig)
        ensures
            r == (VitsConfig { betas, ..self }),
    {
        VitsConfig { betas, ..self }
    }

    pub fn with_betas_d(self, betas_d: (Real32, Real32)) -> (r: VitsConfig)
        ensures
            r == (VitsConfig { betas_d, ..self }),
    {
        VitsConfig { betas_d, ..self }
    }

    pub fn with_eps(self, eps: Real32) -> (r: VitsConfig)
        ensures
            r == (VitsConfig { eps, ..self }),
    {
        VitsConfig { eps, ..self }
    }

    pub fn with_lr_decay(self, lr_decay: Real32) -> (r: VitsConfig)
        ensures
            r == (VitsConfig { lr_decay, ..self }),
    {
        VitsConfig { lr_decay, ..self }
    }

    pub fn with_lr_decay_d(self, lr_decay_d: Real32) -> (r: VitsConfig)
        ensures
            r == (VitsConfig { lr_decay_d, ..self }),
    {
        VitsConfig { lr_decay_d, ..self }
    }

    pub fn with_init_lr_ratio(self, init_lr_ratio: Real32) -> (r: VitsConfig)
        ensures
            r == (VitsConfig { init_lr_ratio, ..self }),
    {
        VitsConfig { init_lr_ratio, ..self }
    }

    pub fn with_warmup_epochs(self, warmup_epochs: usize) -> (r: VitsConfig)
        ensures
            r == (VitsConfig { warmup_epochs, ..self }),
    {
        VitsConfig { warmup_epochs, ..self }
    }

    pub fn with_c_mel(self, c_mel: usize) -> (r: VitsConfig)
        ensures
            r == (VitsConfig { c_mel, ..self }),
    {
        VitsConfig { c_mel, ..self }
    }

    pub fn with_c_kl(self, c_kl: Real32) -> (r: VitsConfig)
        ensures
            r == (VitsConfig { c_kl, ..self }),
    {
        VitsConfig { c_kl, ..self }
    }

    pub fn with_grad_clip(self, grad_clip: Option<Real32>) -> (r: VitsConfig)
        ensures
            r == (VitsConfig { grad_clip, ..self }),
    {
        VitsConfig { grad_clip, ..self }
    }

    pub fn with_vocoder_warmstart_ckpt(self, vocoder_warmstart_ckpt: Option<String>) -> (r:
        VitsConfig)
        ensures
            r == (VitsConfig { vocoder_warmstart_ckpt, ..self }),
    {
        VitsConfig { vocoder_warmstart_ckpt, ..self }
    }

    pub fn with_dataset(self, dataset: Option<()>) -> (r: VitsConfig)
        ensures
            r == (VitsConfig { dataset, ..self }),
    {
        VitsConfig { dataset, ..self }
    }

    pub fn with_num_speakers(self, num_speakers: usize) -> (r: VitsConfig)
        ensures
            r == (VitsConfig { num_speakers, ..self }),
    {
        VitsConfig { num_speakers, ..self }
    }

    pub fn with_resblock(self, resblock: usize) -> (r: VitsConfig)
        ensures
            r == (VitsConfig { resblock, ..self }),
    {
        VitsConfig { resblock, ..self }
    }

    pub fn with_resblock_kernel_sizes(self, resblock_kernel_sizes: Vec<usize>) -> (r: VitsConfig)
        ensures
            r == (VitsConfig { resblock_kernel_sizes, ..self }),
    {
        VitsConfig { resblock_kernel_sizes, ..self }
    }

    pub fn with_resblock_dilation_sizes(self, resblock_dilation_sizes: Vec<Vec<usize>>) -> (r:
        VitsConfig)
        ensures
            r == (VitsConfig { resblock_dilation_sizes, ..self }),
    {
        VitsConfig { resblock_dilation_sizes, ..self }
    }

    pub fn with_upsample_rates(self, upsample_rates: Vec<usize>) -> (r: VitsConfig)
        ensures
            r == (VitsConfig { upsample_rates, ..self }),
    {
        VitsConfig { upsample_rates, ..self }
    }

    pub fn with_upsample_initial_channel(self, upsample_initial_channel: usize) -> (r: VitsConfig)
        ensures
            r == (VitsConfig { upsample_initial_channel, ..self }),
    {
        VitsConfig { upsample_initial_channel, ..self }
    }

    pub fn with_upsample_kernel_sizes(self, upsample_kernel_sizes: Vec<usize>) -> (r: VitsConfig)
        ensures
            r == (VitsConfig { upsample_kernel_sizes, ..self }),
    {
        VitsConfig { upsample_kernel_sizes, ..self }
    }

    pub fn with_phoneme_id_map(self, phoneme_id_map: Option<IdMap>) -> (r: VitsConfig)
        ensures
            r == (VitsConfig { phoneme_id_map, ..self }),
    {
        VitsConfig { phoneme_id_map, ..self }
    }

    pub fn with_name(self, name: String) -> (r: VitsConfig)
        ensures
            r == (VitsConfig { name, ..self }),
    {
        VitsConfig { name, ..self }
    }

    pub fn with_quality(self, quality: String) -> (r: VitsConfig)
        ensures
            r == (VitsConfig { quality, ..self }),
    {
        VitsConfig { quality, ..self }
    }

    pub fn with_espeak_voice(self, espeak_voice: String) -> (r: VitsConfig)
        ensures
            r == (VitsConfig { espeak_voice, ..self }),
    {
        VitsConfig { espeak_voice, ..self }
    }

    pub fn with_inference_noise_scale(self, inference_noise_scale: Real) -> (r: VitsConfig)
        ensures
            r == (VitsConfig { inference_noise_scale, ..self }),
    {
        VitsConfig { inference_noise_scale, ..self }
    }

    pub fn with_inference_length_scale(self, inference_length_scale: Real) -> (r: VitsConfig)
        ensures
            r == (VitsConfig { inference_length_scale, ..self }),
    {
        VitsConfig { inference_length_scale, ..self }
    }

    pub fn with_inference_noise_w(self, inference_noise_w: Real) -> (r: VitsConfig)
        ensures
            r == (VitsConfig { inference_noise_w, ..self }),
    {
        VitsConfig { inference_noise_w, ..self }
    }

    pub fn with_speaker_id_map(self, speaker_id_map: Option<IdMap>) -> (r: VitsConfig)
        ensures
            r == (VitsConfig { speaker_id_map, ..self }),
    {
        VitsConfig { speaker_id_map, ..self }
    }

    /// The channels of the condition on the speaker, for several speakers five hundred and twelve
    /// unless they are given.
    pub open spec fn cond_channels(self) -> usize {
        if self.num_speakers > 1 && self.gin_channels == 0 {
            512
        } else {
            self.gin_channels
        }
    }

    /// The settings of the network.
    pub open spec fn synthesizer(self) -> SynthesizerTrnCofnig {
        SynthesizerTrnCofnig {
            n_vocab: self.num_symbols,
            spec_channels: (self.filter_length / 2 + 1) as usize,
            segment_size: self.segment_size / self.hop_length,
            inter_channels: self.inter_channels,
            hidden_channels: self.hidden_channels,
            filter_channels: self.filter_channels,
            n_heads: self.n_heads,
            n_layers: self.n_layers,
            kernel_size: self.kernel_size,
            p_dropout: self.p_dropout,
            resblock: self.resblock,
            resblock_kernel_sizes: self.resblock_kernel_sizes,
            resblock_dilation_sizes: self.resblock_dilation_sizes,
            upsample_rates: self.upsample_rates,
            upsample_initial_channel: self.upsample_initial_channel,
            upsample_kernel_sizes: self.upsample_kernel_sizes,
            n_speakers: self.num_speakers,
            gin_channels: self.cond_channels(),
            use_sdp: self.use_sdp,
        }
    }

    /// The samples that each frame is upsampled to.
    pub open spec fn total_upsampling(self) -> nat {
        crate::generator::rate_product(self.upsample_rates@, self.upsample_rates.len() as nat)
    }

    /// Whether the model can be made: the rates multiply to the samples of a frame, and the
    /// network can be made.
    pub open spec fn valid(self) -> bool {
        &&& self.hop_length >= 1
        &&& self.total_upsampling() == self.hop_length
        &&& self.synthesizer().valid()
    }

    /// Whether `model` is the model with these settings, at a path.
    pub open spec fn describes(self, path: Path, model: VitsModel) -> bool {
        &&& self.synthesizer().describes(path.field_expr("model_g"), model.model_g)
        &&& MultiPeriodDiscriminatorConfig { use_spectral_norm: false }.describes(
            path.field_expr("model_d"),
            model.model_d,
        )
        &&& model.sample_rate == self.sample_rate
    }

    /// The settings of the network.
    fn into_synthesizer(self) -> (r: SynthesizerTrnCofnig)
        requires
            self.hop_length >= 1,
        ensures
            r == self.synthesizer(),
    {
        let gin_channels: usize = if self.num_speakers > 1 && self.gin_channels == 0 {
            512
        } else {
            self.gin_channels
        };
        SynthesizerTrnCofnig {
            n_vocab: self.num_symbols,
            spec_channels: self.filter_length / 2 + 1,
            segment_size: self.segment_size / self.hop_length,
            inter_channels: self.inter_channels,
            hidden_channels: self.hidden_channels,
            filter_channels: self.filter_channels,
            n_heads: self.n_heads,
            n_layers: self.n_layers,
            kernel_size: self.kernel_size,
            p_dropout: self.p_dropout,
            resblock: self.resblock,
            resblock_kernel_sizes: self.resblock_kernel_sizes,
            resblock_dilation_sizes: self.resblock_dilation_sizes,
            upsample_rates: self.upsample_rates,
            upsample_initial_channel: self.upsample_initial_channel,
            upsample_kernel_sizes: self.upsample_kernel_sizes,
            n_speakers: self.num_speakers,
            gin_channels,
            use_sdp: self.use_sdp,
        }
    }

    /// Whether the model, once it is made, can speak: the channels divide among the heads, and
    /// there is one speaker.
    pub open spec fn speaks(self) -> bool {
        self.synthesizer().enc_p().encoder().divides() && self.num_speakers <= 1
    }

    /// The model with these settings, at a path.
    pub fn init(self, path: &Path) -> (r: VitsModel)
        requires
            self.valid(),
        ensures
            self.describes(*path, r),
            self.speaks() ==> r.model_g.wf(),
    {
        let sample_rate: usize = self.sample_rate;
        let synthesizer = self.into_synthesizer();
        VitsModel {
            model_g: synthesizer.init(&path.field("model_g")),
            model_d: MultiPeriodDiscriminatorConfig::new().init(&path.field("model_d")),
            sample_rate,
        }
    }

    /// The model with these settings, at a path, and whether it can speak; or why there is none.
    pub fn checked_init(self, path: &Path) -> (r: Result<(VitsModel, bool), ModelError>)
        ensures
            r is Ok <==> self.valid(),
            r matches Ok((model, speaks)) ==> {
                &&& self.describes(*path, model)
                &&& speaks == self.speaks()
                &&& speaks ==> model.model_g.wf()
            },
            r matches Err(ModelError::HopLength) <==> self.hop_length == 0
                || self.total_upsampling() != self.hop_length,
    {
        let matching = match multiplied(&self.upsample_rates) {
            Some(product) => product == self.hop_length,
            None => false,
        };
        if self.hop_length == 0 || !matching {
            return Err(ModelError::HopLength);
        }
        let sample_rate: usize = self.sample_rate;
        let synthesizer = self.into_synthesizer();
        if !synthesizer.accepts() {
            return Err(ModelError::Network);
        }
        let speaks = synthesizer.is_speaking();
        let model = VitsModel {
            model_g: synthesizer.init(&path.field("model_g")),
            model_d: MultiPeriodDiscriminatorConfig::new().init(&path.field("model_d")),
            sample_rate,
        };
        Ok((model, speaks))
    }
}

impl VitsModel {
    pub open spec fn forward_expr(
        self,
        phoname_ids: Tensor,
        phoname_lengths: Tensor,
        noise_scale: Real,
        length_sacle: Real,
        noise_scale_w: Real,
        max_len: Option<usize>,
        frames: usize,
    ) -> Tensor {
        self.model_g.decode_expr(
            self.model_g.predict_expr(phoname_ids, phoname_lengths, length_sacle, noise_scale_w),
            frames,
            noise_scale,
            max_len,
        )
    }

    /// The samples of the phonemes `phoname_ids`, where `frames` is the greatest of the predicted
    /// numbers of frames.
    pub fn forward(
        &self,
        phoname_ids: Tensor,
        phoname_lengths: Tensor,
        noise_scale: Real,
        length_sacle: Real,
        noise_scale_w: Real,
        speaker_id: Option<usize>,
        max_len: Option<usize>,
        frames: usize,
    ) -> (r: Tensor)
        requires
            self.model_g.wf(),
            phoname_ids.wf(),
            phoname_ids.kind == Kind::Int,
            phoname_ids.shape == Shape::D2(1, phoname_ids.at(1)),
            self.model_g.takes_length(phoname_ids.at(1)),
            phoname_lengths.wf(),
            phoname_lengths.kind == Kind::Int,
            phoname_lengths.shape == Shape::D1(1),
            self.model_g.takes_frames(phoname_ids.at(1), frames, max_len),
        ensures
            r == self.forward_expr(
                phoname_ids,
                phoname_lengths,
                noise_scale,
                length_sacle,
                noise_scale_w,
                max_len,
                frames,
            ),
            r.is_signal(),
            r.shape == self.model_g.dec.shape_out(
                self.model_g.kept_shape(frames, max_len),
                None,
            ),
    {
        self.model_g.infer(
            phoname_ids,
            phoname_lengths,
            noise_scale,
            length_sacle,
            noise_scale_w,
            speaker_id,
            max_len,
            frames,
        )
    }
}

// What holds of every voice.

/// One more rate multiplied.
proof fn lemma_next_rate(rates: Seq<usize>, n: nat, product: nat, rate: nat)
    requires
        crate::generator::rate_product(rates, n) == product,
        rates[n as int] == rate,
    ensures
        crate::generator::rate_product(rates, n + 1) == product * rate,
{
}

/// The numbers that the decoder of a voice is made of.
proof fn lemma_decoder_numbers(config: VitsConfig, quality: Quality)
    requires
        config.shared(),
        quality.shapes(config),
    ensures
        config.total_upsampling() == 256,
        config.synthesizer().dec().valid(),
        config.synthesizer().dec().upsamples_evenly(),
        config.synthesizer().dec().stages() == config.upsample_rates.len(),
        config.synthesizer().dec().initial_channel == 192,
{
    let dec = config.synthesizer().dec();
    let channels = config.upsample_initial_channel;
    vstd::arithmetic::power2::lemma2_to64();
    let rates = config.upsample_rates@;
    lemma_next_rate(rates, 0, 1, 8);
    lemma_next_rate(rates, 1, 8, 8);
    if quality is High {
        lemma_next_rate(rates, 2, 64, 2);
        lemma_next_rate(rates, 3, 128, 2);
    } else {
        lemma_next_rate(rates, 2, 64, 4);
    }
    let (stages, blocks) = (dec.stages(), dec.blocks());
    assert(stages == 3 || stages == 4);
    assert(blocks == 3);
    assert(vstd::arithmetic::power2::pow2(stages) <= 16);
    assert(stages * blocks <= 12) by (nonlinear_arith)
        requires
            stages <= 4,
            blocks == 3,
    ;
    crate::generator::lemma_halved(channels, stages);
    assert(dec.last_channels() <= 512);
    assert forall|i: int| 0 <= i < dec.stages() implies (#[trigger] dec.upsample_rates@[i])
        <= dec.upsample_kernel_sizes@[i] && dec.up(i).valid() && dec.upsample_rates@[i] >= 1 && (
    dec.upsample_kernel_sizes@[i] - dec.upsample_rates@[i]) % 2 == 0 by {
        crate::generator::lemma_halved(channels, i as nat);
        let half = crate::generator::halved(channels, (i + 1) as nat);
        let kernel = dec.upsample_kernel_sizes@[i];
        crate::generator::lemma_halved(channels, (i + 1) as nat);
        assert(half * kernel <= 512 * 16) by (nonlinear_arith)
            requires
                half <= 512,
                kernel <= 16,
        ;
    }
    assert forall|j: int| 0 <= j < dec.blocks() implies #[trigger] crate::generator::resblock_odd(
        dec.resblock_kernel_sizes@[j],
        dec.resblock_dilation_sizes@[j]@,
    ) by {
        let dilation = config.resblock_dilation_sizes@[j]@;
        assert(dilation.len() <= 3);
    }
    assert forall|i: int, j: int| 0 <= i < dec.stages() && 0 <= j < dec.blocks() implies #[trigger]
    dec.block_valid(i, j) by {
        crate::generator::lemma_halved(channels, (i + 1) as nat);
        let half = crate::generator::halved(channels, (i + 1) as nat);
        let kernel = dec.resblock_kernel_sizes@[j];
        let dilation = config.resblock_dilation_sizes@[j]@;
        assert(half * kernel <= 512 * 11) by (nonlinear_arith)
            requires
                half <= 512,
                kernel <= 11,
        ;
        assert forall|d: int| 0 <= d < dilation.len() implies kernel * (#[trigger] dilation[d])
            <= 11 * 12 by {
            let one = dilation[d];
            assert(one <= 12);
            assert(kernel * one <= 11 * 12) by (nonlinear_arith)
                requires
                    kernel <= 11,
                    one <= 12,
            ;
        }
    }
}

/// The settings of every voice, of whatever quality and number of speakers, make a model.
pub proof fn lemma_voice_valid(config: VitsConfig, quality: Quality)
    requires
        config.shared(),
        quality.shapes(config),
    ensures
        config.valid(),
        config.num_speakers <= 1 ==> config.speaks(),
{
    lemma_decoder_numbers(config, quality);
    let enc_q = config.synthesizer().enc_q().enc();
    let layer = config.synthesizer().flow().layer().enc();
    assert forall|i: int| 0 <= i < 16 implies #[trigger] enc_q.dilation(i) == 1 by {
        crate::wavenet::lemma_power_of_one(i as nat);
    }
    assert forall|i: int| 0 <= i < 4 implies #[trigger] layer.dilation(i) == 1 by {
        crate::wavenet::lemma_power_of_one(i as nat);
    }
}

/// A model of every voice of one speaker speaks any two or more phonemes in any number of frames, as
/// far as machine numbers go, and makes as many samples of a frame as the voice has samples to a
/// frame.
pub proof fn lemma_voice_speaks(
    config: VitsConfig,
    quality: Quality,
    path: Path,
    model: VitsModel,
    phonemes: usize,
    frames: usize,
    max_len: Option<usize>,
)
    requires
        config.shared(),
        quality.shapes(config),
        config.describes(path, model),
        model.model_g.wf(),
        phonemes >= 2,
        phonemes * 2 * phonemes + phonemes <= usize::MAX,
        phonemes + 100 <= usize::MAX,
        frames >= 1,
        frames * 256 + 1000 <= usize::MAX,
        max_len matches Some(val) ==> val < isize::MAX,
    ensures
        model.model_g.takes_length(phonemes),
        model.model_g.takes_frames(phonemes, frames, max_len),
        model.model_g.dec.shape_out(model.model_g.kept_shape(frames, max_len), None) == Shape::D3(
            1,
            1,
            (crate::synthesizer::kept_frames(max_len, frames) * config.hop_length) as usize,
        ),
{
    lemma_decoder_numbers(config, quality);
    lemma_speaks_phonemes(config, path, model, phonemes);
    lemma_flow_takes(config, path, model, frames);
    let kept = crate::synthesizer::kept_frames(max_len, frames);
    lemma_decoder_room(config, quality, kept);
    crate::generator::lemma_samples_per_frame(
        config.synthesizer().dec(),
        path.field_expr("model_g").field_expr("dec"),
        model.model_g.dec,
        model.model_g.kept_shape(frames, max_len),
    );
}

/// The convolutions over phonemes have room for a number of phonemes.
proof fn lemma_convs_room(
    config: crate::wavenet::DDSConvConfig,
    path: Path,
    convs: crate::wavenet::DDSConv,
    phonemes: usize,
)
    requires
        config.kernel_size == 3,
        config.n_layers == 3,
        config.describes(path, convs),
        1 <= phonemes,
        phonemes + 100 <= usize::MAX,
    ensures
        convs.takes_length(phonemes),
{
    reveal_with_fuel(crate::wavenet::power, 5);
    assert forall|i: int| 0 <= i < convs.n_layers implies (
    #[trigger] convs.convs_sep@[i]).room_for(phonemes) by {
        assert(config.describes_layer(i, path, convs));
        assert(crate::wavenet::power(3, 0) == 1 && crate::wavenet::power(3, 1) == 3
            && crate::wavenet::power(3, 2) == 9);
    }
}

/// A model speaks a number of phonemes.
proof fn lemma_speaks_phonemes(
    config: VitsConfig,
    path: Path,
    model: VitsModel,
    phonemes: usize,
)
    requires
        config.shared(),
        config.describes(path, model),
        model.model_g.wf(),
        phonemes >= 2,
        phonemes * 2 * phonemes + phonemes <= usize::MAX,
        phonemes + 100 <= usize::MAX,
    ensures
        model.model_g.takes_length(phonemes),
{
    let settings = config.synthesizer();
    let at = path.field_expr("model_g");
    let encoder = model.model_g.enc_p.encoder;
    let encoder_config = settings.enc_p().encoder();
    let encoder_path = at.field_expr("enc_p").field_expr("encoder");
    assert forall|i: int| 0 <= i < encoder.attn_layers.len() implies (
    #[trigger] encoder.attn_layers@[i]).takes_lengths(phonemes, phonemes) && (
    encoder.attn_layers@[i].block_length matches Some(b) ==> b <= i64::MAX) && phonemes
        + encoder.ffn_layers@[i].kernel_size <= usize::MAX by {
        assert(encoder_config.describes_layer(i, encoder_path, encoder));
    }
    let sdp = model.model_g.sdp();
    let dp = settings.dp();
    let dp_path = at.field_expr("dp");
    lemma_convs_room(dp.convs(), dp_path.field_expr("convs"), sdp.convs, phonemes);
    assert forall|i: int| 0 <= i < sdp.flows.len() implies #[trigger] sdp.step_takes(
        i,
        1,
        phonemes,
    ) by {
        let flows_path = dp_path.field_expr("flows");
        assert(dp.describes_step(i, flows_path, sdp.flows@));
        if let crate::predictor::StochasticDurationPredictorLayers::ConvFlow(layer) = sdp.flows@[i] {
            lemma_convs_room(
                dp.conv_flow().convs(),
                flows_path.index_expr(i as usize).field_expr("convs"),
                layer.convs,
                phonemes,
            );
        }
    }
}

/// The flow of a model takes a number of frames.
proof fn lemma_flow_takes(config: VitsConfig, path: Path, model: VitsModel, frames: usize)
    requires
        config.shared(),
        config.describes(path, model),
        model.model_g.wf(),
        frames >= 1,
        frames + 100 <= usize::MAX,
    ensures
        model.model_g.flow.takes(Shape::D3(1, 192, frames), Shape::D3(1, 1, frames), None),
{
    let settings = config.synthesizer().flow();
    let at = path.field_expr("model_g").field_expr("flow");
    let flow = model.model_g.flow;
    assert forall|i: int| 0 <= i < flow.flows.len() implies (#[trigger] flow.flows@[i]).takes(
        Shape::D3(1, 192, frames),
        Shape::D3(1, 1, frames),
        None,
    ) by {
        assert(settings.describes_step(i, at, flow.flows@));
        assert(flow.flows@[i].wf(192));
        if let crate::flow::ResidualCouplingBlockLayers::ResidualCouplingLayer(layer)
            = flow.flows@[i] {
            let enc_path = at.field_expr("flows").index_expr(i as usize).field_expr("enc");
            let enc = settings.layer().enc();
            assert forall|j: int| 0 <= j < layer.enc.n_layers implies frames + (
            #[trigger] layer.enc.in_layers@[j]).padding + layer.enc.in_layers@[j].padding
                <= usize::MAX by {
                assert(enc.describes_layer(j, enc_path, layer.enc));
                crate::wavenet::lemma_power_of_one(j as nat);
            }
        }
    }
}

/// The decoder of a voice has room for a number of frames.
proof fn lemma_decoder_room(config: VitsConfig, quality: Quality, frames: usize)
    requires
        config.shared(),
        quality.shapes(config),
        frames * 256 + 1000 <= usize::MAX,
    ensures
        config.synthesizer().dec().room(frames),
        config.synthesizer().dec().upsampling(config.synthesizer().dec().stages()) == 256,
{
    let dec = config.synthesizer().dec();
    let rates = config.upsample_rates@;
    lemma_decoder_numbers(config, quality);
    lemma_next_rate(rates, 0, 1, 8);
    lemma_next_rate(rates, 1, 8, 8);
    if quality is High {
        lemma_next_rate(rates, 2, 64, 2);
        lemma_next_rate(rates, 3, 128, 2);
    } else {
        lemma_next_rate(rates, 2, 64, 4);
    }
    assert forall|i: int| 0 <= i < dec.stages() implies #[trigger] dec.stage_room(i, frames) by {
        let product = dec.upsampling(i as nat);
        let rate = dec.upsample_rates@[i];
        let length = frames * product * rate;
        assert(product * rate <= 256);
        assert(length <= frames * 256) by (nonlinear_arith)
            requires
                length == frames * product * rate,
                product * rate <= 256,
                frames >= 0,
        ;
        assert forall|j: int| 0 <= j < dec.blocks() implies #[trigger] crate::generator::resblock_room(
            dec.resblock,
            dec.resblock_kernel_sizes@[j],
            dec.resblock_dilation_sizes@[j]@,
            length,
        ) by {
            let kernel = dec.resblock_kernel_sizes@[j];
            let dilation = config.resblock_dilation_sizes@[j]@;
            assert forall|d: int| 0 <= d < dilation.len() implies length + kernel * (
            #[trigger] dilation[d]) <= usize::MAX by {
                let one = dilation[d];
                assert(one <= 12);
                assert(kernel * one <= 11 * 12) by (nonlinear_arith)
                    requires
                        kernel <= 11,
                        one <= 12,
                ;
            }
        }
    }
}

} // verus!

//! Self-attention with relative positions, and the feed-forward layers between.

use crate::nn::{Conv1d, Conv1dConfig, Dropout};
use crate::number::{Real, Scalar};
use crate::param::{Initializer, Param, Path, Start};
use crate::shape::Shape;
use crate::tensor::{Kind, ScalarOp, Tensor, UnaryOp};
use vstd::prelude::*;

verus! {

/// 1.702
pub const GELU_FACTOR: u64 = 0x3FFB_3B64_5A1C_AC08;

/// -10000.0, which stands for no attention.
pub const MASKED_SCORE: u64 = 0xC0C3_8800_0000_0000;

/// -0.5
pub const MINUS_HALF: u64 = 0xBFE0_0000_0000_0000;

/// Settings of an [`FFN`].
#[derive(Debug)]
pub struct FFNConfig {
    pub in_channels: usize,
    pub out_channels: usize,
    pub filter_channels: usize,
    pub kernel_size: usize,
    pub p_dropout: Real,
    pub activation: String,
    pub causal: bool,
}

/// Two convolutions with an activation in between.
#[derive(Debug)]
pub struct FFN {
    pub conv_1: Conv1d,
    pub conv_2: Conv1d,
    pub drop: Dropout,
    pub causal: bool,
    pub activation: String,
    pub kernel_size: usize,
}

impl FFNConfig {
    /// Without dropout, with the rectifier as activation, looking both ways.
    pub fn new(
        in_channels: usize,
        out_channels: usize,
        filter_channels: usize,
        kernel_size: usize,
    ) -> (r: FFNConfig)
        ensures
            r.in_channels == in_channels,
            r.out_channels == out_channels,
            r.filter_channels == filter_channels,
            r.kernel_size == kernel_size,
            r.p_dropout.bits == 0,
            r.activation@ == Seq::<char>::empty(),
            !r.causal,
    {
        FFNConfig {
            in_channels,
            out_channels,
            filter_channels,
            kernel_size,
            p_dropout: Real::from_bits(0),
            activation: String::new(),
            causal: false,
        }
    }

    pub fn with_p_dropout(self, p_dropout: Real) -> (r: FFNConfig)
        ensures
            r == (FFNConfig { p_dropout, ..self }),
    {
        FFNConfig { p_dropout, ..self }
    }

    pub fn with_activation(self, activation: String) -> (r: FFNConfig)
        ensures
            r == (FFNConfig { activation, ..self }),
    {
        FFNConfig { activation, ..self }
    }

    pub fn with_causal(self, causal: bool) -> (r: FFNConfig)
        ensures
            r == (FFNConfig { causal, ..self }),
    {
        FFNConfig { causal, ..self }
    }

    pub open spec fn valid(self) -> bool {
        &&& self.in_channels * self.kernel_size <= usize::MAX
        &&& self.filter_channels * self.kernel_size <= usize::MAX
        &&& self.p_dropout.within_unit()
    }

    /// Whether `module` is the layer with these settings, at a path.
    pub open spec fn describes(self, path: Path, module: FFN) -> bool {
        &&& module.conv_1 == Conv1dConfig::usual(
            self.in_channels,
            self.filter_channels,
            self.kernel_size,
        ).built(path.field_expr("conv_1"))
        &&& module.conv_2 == Conv1dConfig::usual(
            self.filter_channels,
            self.out_channels,
            self.kernel_size,
        ).built(path.field_expr("conv_2"))
        &&& module.drop.prob == self.p_dropout
        &&& module.causal == self.causal
        &&& module.activation@ == self.activation@
        &&& module.kernel_size == self.kernel_size
    }

    /// The layer with these settings, at a path.
    pub fn init(&self, path: &Path) -> (r: FFN)
        requires
            self.valid(),
        ensures
            self.describes(*path, r),
            self.kernel_size >= 1 ==> r.wf(
                self.in_channels,
                self.filter_channels,
                self.out_channels,
            ),
    {
        proof {
            vstd::arithmetic::div_mod::lemma_div_basics(self.in_channels as int);
            vstd::arithmetic::div_mod::lemma_div_basics(self.filter_channels as int);
        }
        FFN {
            conv_1: Conv1dConfig::new(
                self.in_channels,
                self.filter_channels,
                self.kernel_size,
            ).init(&path.field("conv_1")),
            conv_2: Conv1dConfig::new(
                self.filter_channels,
                self.out_channels,
                self.kernel_size,
            ).init(&path.field("conv_2")),
            drop: Dropout::init(self.p_dropout),
            causal: self.causal,
            activation: self.activation.clone(),
            kernel_size: self.kernel_size,
        }
    }
}

impl FFN {
    pub open spec fn wf(
        self,
        in_channels: usize,
        filter_channels: usize,
        out_channels: usize,
    ) -> bool {
        &&& self.kernel_size >= 1
        &&& self.conv_1.unpadded(in_channels, filter_channels, self.kernel_size)
        &&& self.conv_2.unpadded(filter_channels, out_channels, self.kernel_size)
    }

    /// The channels that the first convolution yields.
    pub open spec fn filter_channels(self) -> usize {
        self.conv_1.channels_out()
    }

    /// The channels that the second convolution yields.
    pub open spec fn out_channels(self) -> usize {
        self.conv_2.channels_out()
    }

    pub open spec fn causal_padding_expr(self, x: Tensor) -> Tensor {
        if self.kernel_size == 1 {
            x
        } else {
            x.pad_expr(2, (self.kernel_size - 1) as usize, 0)
        }
    }

    pub open spec fn same_padding_expr(self, x: Tensor) -> Tensor {
        if self.kernel_size == 1 {
            x
        } else {
            x.pad_expr(2, ((self.kernel_size - 1) / 2) as usize, self.kernel_size / 2)
        }
    }

    /// `x` padded for a convolution.
    pub open spec fn padded_expr(self, x: Tensor) -> Tensor {
        if self.causal {
            self.causal_padding_expr(x)
        } else {
            self.same_padding_expr(x)
        }
    }

    pub open spec fn activated_expr(self, x: Tensor) -> Tensor {
        if self.activation@ == "gelu"@ {
            x.times_expr(
                x.scalar_expr(ScalarOp::Mul, Scalar::literal_expr(GELU_FACTOR)).unary_expr(
                    UnaryOp::Sigmoid,
                ),
            )
        } else {
            x.unary_expr(UnaryOp::Relu)
        }
    }

    pub open spec fn forward_expr(self, x: Tensor, x_mask: Tensor) -> Tensor {
        let x = self.conv_1.forward_expr(self.padded_expr(x.times_expr(x_mask)));
        let x = self.drop.forward_expr(self.activated_expr(x));
        let x = self.conv_2.forward_expr(self.padded_expr(x.times_expr(x_mask)));
        x.times_expr(x_mask)
    }

    /// What the layer makes of `x` within the mask. The length stays as it is.
    pub fn forward(&self, x: Tensor, x_mask: Tensor) -> (r: Tensor)
        requires
            x.is_signal(),
            x.at(2) >= 1,
            x.at(2) + self.kernel_size <= usize::MAX,
            self.wf(x.at(1), self.filter_channels(), self.out_channels()),
            x_mask.covers(x.shape),
            x_mask.covers(Shape::D3(x.at(0), self.filter_channels(), x.at(2))),
            x_mask.covers(Shape::D3(x.at(0), self.out_channels(), x.at(2))),
        ensures
            r == self.forward_expr(x, x_mask),
            r.is_signal(),
            r.shape == Shape::D3(x.at(0), self.out_channels(), x.at(2)),
    {
        let ghost length = x.at(2);
        let padding1 = if self.causal {
            self._causal_padding(x.times(x_mask.clone()))
        } else {
            self._same_padding(x.times(x_mask.clone()))
        };
        proof {
            self.conv_1.lemma_unpadded(padding1.shape, length);
        }
        let x = self.conv_1.forward(padding1);
        let gelu = "gelu".to_owned();
        let x = if self.activation == gelu {
            x.clone().times(
                x.scalar(ScalarOp::Mul, Scalar::literal(GELU_FACTOR)).unary(UnaryOp::Sigmoid),
            )
        } else {
            x.unary(UnaryOp::Relu)
        };
        let x = self.drop.forward(x);
        let padding2 = if self.causal {
            self._causal_padding(x.times(x_mask.clone()))
        } else {
            self._same_padding(x.times(x_mask.clone()))
        };
        proof {
            self.conv_2.lemma_unpadded(padding2.shape, length);
        }
        let x = self.conv_2.forward(padding2);
        x.times(x_mask)
    }

    /// `x` padded in front, so that no position sees one after it.
    pub fn _causal_padding(&self, x: Tensor) -> (r: Tensor)
        requires
            x.is_signal(),
            self.kernel_size >= 1,
            x.at(2) + self.kernel_size <= usize::MAX,
        ensures
            r == self.causal_padding_expr(x),
            r.is_signal(),
            r.shape == Shape::D3(x.at(0), x.at(1), (x.at(2) + self.kernel_size - 1) as usize),
    {
        if self.kernel_size == 1 {
            return x;
        }
        let pad_l: usize = self.kernel_size - 1;
        x.pad(2, pad_l, 0)
    }

    /// `x` padded on both sides.
    pub fn _same_padding(&self, x: Tensor) -> (r: Tensor)
        requires
            x.is_signal(),
            self.kernel_size >= 1,
            x.at(2) + self.kernel_size <= usize::MAX,
        ensures
            r == self.same_padding_expr(x),
            r.is_signal(),
            r.shape == Shape::D3(x.at(0), x.at(1), (x.at(2) + self.kernel_size - 1) as usize),
    {
        if self.kernel_size == 1 {
            return x;
        }
        let pad_l: usize = (self.kernel_size - 1) / 2;
        let pad_r: usize = self.kernel_size / 2;
        x.pad(2, pad_l, pad_r)
    }
}

/// Settings of a [`MultiHeadAttention`].
#[derive(Clone, Copy, PartialEq, Eq, Debug)]
pub struct MultiHeadAttentionConfig {
    pub channels: usize,
    pub out_channels: usize,
    pub n_heads: usize,
    pub p_dropout: Real,
    pub window_size: Option<usize>,
    pub heads_share: bool,
    pub block_length: Option<usize>,
    pub proximal_bias: bool,
    pub proximal_init: bool,
}

/// Attention of several heads, each over its share of the channels.
#[derive(Debug)]
pub struct MultiHeadAttention {
    pub conv_q: Conv1d,
    pub conv_k: Conv1d,
    pub conv_v: Conv1d,
    pub conv_o: Conv1d,
    pub drop: Dropout,
    pub emb_rel_k: Option<Param>,
    pub emb_rel_v: Option<Param>,
    pub n_heads: usize,
    pub k_channels: usize,
    pub window_size: Option<usize>,
    pub proximal_bias: bool,
    pub block_length: Option<usize>,
}

impl MultiHeadAttentionConfig {
    /// Without dropout, relative positions, blocks or bias; relative positions, where there are
    /// any, shared by the heads.
    pub fn new(channels: usize, out_channels: usize, n_heads: usize) -> (r:
        MultiHeadAttentionConfig)
        ensures
            r == (MultiHeadAttentionConfig {
                channels,
                out_channels,
                n_heads,
                p_dropout: Real { bits: 0 },
                window_size: None,
                heads_share: true,
                block_length: None,
                proximal_bias: false,
                proximal_init: false,
            }),
    {
        MultiHeadAttentionConfig {
            channels,
            out_channels,
            n_heads,
            p_dropout: Real::from_bits(0),
            window_size: None,
            heads_share: true,
            block_length: None,
            proximal_bias: false,
            proximal_init: false,
        }
    }

    pub fn with_p_dropout(self, p_dropout: Real) -> (r: MultiHeadAttentionConfig)
        ensures
            r == (MultiHeadAttentionConfig { p_dropout, ..self }),
    {
        MultiHeadAttentionConfig { p_dropout, ..self }
    }

    pub fn with_window_size(self, window_size: Option<usize>) -> (r: MultiHeadAttentionConfig)
        ensures
            r == (MultiHeadAttentionConfig { window_size, ..self }),
    {
        MultiHeadAttentionConfig { window_size, ..self }
    }

    pub fn with_heads_share(self, heads_share: bool) -> (r: MultiHeadAttentionConfig)
        ensures
            r == (MultiHeadAttentionConfig { heads_share, ..self }),
    {
        MultiHeadAttentionConfig { heads_share, ..self }
    }

    pub fn with_block_length(self, block_length: Option<usize>) -> (r: MultiHeadAttentionConfig)
        ensures
            r == (MultiHeadAttentionConfig { block_length, ..self }),
    {
        MultiHeadAttentionConfig { block_length, ..self }
    }

    pub fn with_proximal_bias(self, proximal_bias: bool) -> (r: MultiHeadAttentionConfig)
        ensures
            r == (MultiHeadAttentionConfig { proximal_bias, ..self }),
    {
        MultiHeadAttentionConfig { proximal_bias, ..self }
    }

    pub fn with_proximal_init(self, proximal_init: bool) -> (r: MultiHeadAttentionConfig)
        ensures
            r == (MultiHeadAttentionConfig { proximal_init, ..self }),
    {
        MultiHeadAttentionConfig { proximal_init, ..self }
    }

    pub open spec fn valid(self) -> bool {
        &&& self.n_heads >= 1
        &&& self.p_dropout.within_unit()
        &&& self.window_size matches Some(w) ==> w * 2 + 1 <= usize::MAX
    }

    /// The channels of one head.
    pub open spec fn k_channels(self) -> usize {
        self.channels / self.n_heads
    }

    /// The vectors for relative positions within a window, at a path.
    pub open spec fn relative(self, path: Path) -> Option<Param> {
        match self.window_size {
            Some(window_size) => Some(
                Param {
                    path,
                    shape: Shape::D3(
                        if self.heads_share {
                            1
                        } else {
                            self.n_heads
                        },
                        (window_size * 2 + 1) as usize,
                        self.k_channels(),
                    ),
                    start: Start::ScaledRandom(
                        Scalar::Count(self.k_channels()).pow_expr(Real { bits: MINUS_HALF }),
                    ),
                },
            ),
            None => None,
        }
    }

    /// The convolution that makes queries, keys or values.
    pub open spec fn conv(self) -> Conv1dConfig {
        Conv1dConfig {
            initializer: Initializer::balanced(),
            ..Conv1dConfig::usual(self.channels, self.channels, 1)
        }
    }

    /// Whether `module` is the layer with these settings, at a path.
    pub open spec fn describes(self, path: Path, module: MultiHeadAttention) -> bool {
        let conv_q = self.conv().built(path.field_expr("conv_q"));
        let conv_k = self.conv().built(path.field_expr("conv_k"));
        &&& module.conv_q == conv_q
        &&& module.conv_k == if self.proximal_init {
            Conv1d {
                weight: Param { start: Start::SameAs(conv_q.weight.path), ..conv_k.weight },
                bias: Some(
                    Param { start: Start::SameAs(conv_q.bias->0.path), ..conv_k.bias->0 },
                ),
                ..conv_k
            }
        } else {
            conv_k
        }
        &&& module.conv_v == self.conv().built(path.field_expr("conv_v"))
        &&& module.conv_o == Conv1dConfig::usual(self.channels, self.out_channels, 1).built(
            path.field_expr("conv_o"),
        )
        &&& module.drop.prob == self.p_dropout
        &&& module.emb_rel_k == self.relative(path.field_expr("emb_rel_k"))
        &&& module.emb_rel_v == self.relative(path.field_expr("emb_rel_v"))
        &&& module.n_heads == self.n_heads
        &&& module.k_channels == self.k_channels()
        &&& module.window_size == self.window_size
        &&& module.proximal_bias == self.proximal_bias
        &&& module.block_length == self.block_length
    }

    fn make_relative(&self, path: Path) -> (r: Option<Param>)
        requires
            self.valid(),
        ensures
            r == self.relative(path),
    {
        let k_channels: usize = self.channels / self.n_heads;
        match self.window_size {
            Some(window_size) => {
                let n_heads_rel: usize = if self.heads_share {
                    1
                } else {
                    self.n_heads
                };
                let rel_stddev = Scalar::Count(k_channels).powf(Real::from_bits(MINUS_HALF));
                Some(
                    Param {
                        path,
                        shape: Shape::D3(n_heads_rel, window_size * 2 + 1, k_channels),
                        start: Start::ScaledRandom(rel_stddev),
                    },
                )
            },
            None => None,
        }
    }

    /// The layer with these settings, at a path.
    pub fn init(&self, path: &Path) -> (r: MultiHeadAttention)
        requires
            self.valid(),
        ensures
            self.describes(*path, r),
            self.channels % self.n_heads == 0 ==> r.wf(self.channels, self.out_channels),
    {
        proof {
            vstd::arithmetic::div_mod::lemma_div_basics(self.channels as int);
            vstd::arithmetic::div_mod::lemma_fundamental_div_mod(
                self.channels as int,
                self.n_heads as int,
            );
        }
        let mut config = Conv1dConfig::new(self.channels, self.channels, 1);
        config.initializer = Initializer::xavier_uniform();
        let conv_q = config.init(&path.field("conv_q"));
        let mut conv_k = config.init(&path.field("conv_k"));
        if self.proximal_init {
            let q_path = path.field("conv_q");
            let k_path = path.field("conv_k");
            conv_k.weight = Param {
                path: k_path.field("weight"),
                shape: Shape::D3(self.channels, self.channels / 1, 1),
                start: Start::SameAs(q_path.field("weight")),
            };
            conv_k.bias = Some(
                Param {
                    path: k_path.field("bias"),
                    shape: Shape::D1(self.channels),
                    start: Start::SameAs(q_path.field("bias")),
                },
            );
        }
        MultiHeadAttention {
            conv_q,
            conv_k,
            conv_v: config.init(&path.field("conv_v")),
            conv_o: Conv1dConfig::new(self.channels, self.out_channels, 1).init(
                &path.field("conv_o"),
            ),
            drop: Dropout::init(self.p_dropout),
            emb_rel_k: self.make_relative(path.field("emb_rel_k")),
            emb_rel_v: self.make_relative(path.field("emb_rel_v")),
            n_heads: self.n_heads,
            k_channels: self.channels / self.n_heads,
            window_size: self.window_size,
            proximal_bias: self.proximal_bias,
            block_length: self.block_length,
        }
    }
}

impl MultiHeadAttention {
    /// Whether these are the vectors of the relative positions within a window.
    pub open spec fn relative_fits(self, embeddings: Option<Param>) -> bool {
        self.window_size matches Some(w) ==> {
            &&& w * 2 + 1 <= usize::MAX
            &&& embeddings matches Some(e)
            &&& e.shape == Shape::D3(e.shape.at(0), (w * 2 + 1) as usize, self.k_channels)
            &&& e.shape.at(0) == 1 || e.shape.at(0) == self.n_heads
        }
    }

    pub open spec fn wf(self, channels: usize, out_channels: usize) -> bool {
        &&& self.n_heads >= 1
        &&& channels == self.n_heads * self.k_channels
        &&& self.conv_q.pointwise(channels, channels)
        &&& self.conv_k.pointwise(channels, channels)
        &&& self.conv_v.pointwise(channels, channels)
        &&& self.conv_o.pointwise(channels, out_channels)
        &&& self.relative_fits(self.emb_rel_k)
        &&& self.relative_fits(self.emb_rel_v)
    }

    /// The channels that come out.
    pub open spec fn out_channels(self) -> usize {
        self.conv_o.channels_out()
    }

    /// Whether sequences of these lengths can attend to each other.
    pub open spec fn takes_lengths(self, t_t: usize, t_s: usize) -> bool {
        &&& self.window_size is Some ==> t_s == t_t && t_s >= 1 && t_s * 2 * t_s + t_s
            <= usize::MAX
        &&& self.proximal_bias ==> t_s == t_t
    }

    /// The vectors of the relative positions between `length` positions.
    pub open spec fn relative_embeddings_expr(self, embeddings: Tensor, length: usize) -> Tensor {
        let window_size: int = match self.window_size {
            Some(w) => w as int,
            None => 0,
        };
        let pad = if length > window_size + 1 {
            length - (window_size + 1)
        } else {
            0
        };
        let start = if window_size + 1 > length {
            window_size + 1 - length
        } else {
            0
        };
        let padded = if pad > 0 {
            embeddings.pad_expr(1, pad as usize, pad as usize)
        } else {
            embeddings
        };
        padded.slice_expr(1, start as usize, (start + 2 * length - 1) as usize)
    }

    pub open spec fn absolute_to_relative_expr(x: Tensor) -> Tensor {
        let (batch, heads, length) = (x.at(0), x.at(1), x.at(2));
        let x = x.pad_expr(3, 0, (length - 1) as usize);
        let x_flat = x.reshape_expr(
            Shape::D3(batch, heads, (length * length + length * (length - 1)) as usize),
        ).pad_expr(2, length, 0);
        x_flat.reshape_expr(Shape::D4(batch, heads, length, (2 * length) as usize)).slice_expr(
            3,
            1,
            (2 * length) as usize,
        )
    }

    pub open spec fn relative_to_absolute_expr(x: Tensor) -> Tensor {
        let (batch, heads, length) = (x.at(0), x.at(1), x.at(2));
        let x = x.pad_expr(3, 0, 1);
        let x_flat = x.reshape_expr(
            Shape::D3(batch, heads, (length * 2 * length) as usize),
        ).pad_expr(2, 0, (length - 1) as usize);
        x_flat.reshape_expr(
            Shape::D4(batch, heads, (length + 1) as usize, (2 * length - 1) as usize),
        ).slice_expr(2, 0, length).slice_expr(3, (length - 1) as usize, (2 * length - 1) as usize)
    }

    pub open spec fn attention_bias_proximal_expr(length: usize) -> Tensor {
        let r = Tensor::arange_expr(length);
        let diff = r.unsqueeze_expr(0).minus_expr(r.unsqueeze_expr(1));
        diff.unary_expr(UnaryOp::Abs).unary_expr(UnaryOp::ToFloat).unary_expr(
            UnaryOp::Log1p,
        ).unary_expr(UnaryOp::Neg).unsqueeze_expr(0).unsqueeze_expr(0)
    }

    /// A signal with its channels split among the heads, positions before channels.
    pub open spec fn heads_expr(self, x: Tensor, batch: usize, length: usize) -> Tensor {
        x.reshape_expr(Shape::D4(batch, self.n_heads, self.k_channels, length)).swap_dims_expr(
            2,
            3,
        )
    }

    /// The square root of the channels of one head.
    pub open spec fn scale(self) -> Scalar {
        Scalar::Count(self.k_channels).sqrt_expr()
    }

    /// How much each position attends to each other, before they compete.
    pub open spec fn scores_expr(self, query: Tensor, key: Tensor, length: usize) -> Tensor {
        let scaled = query.scalar_expr(ScalarOp::Div, self.scale());
        let scores = scaled.matmul_expr(key.swap_dims_expr(2, 3));
        let scores = if self.window_size is Some {
            let embeddings = self.relative_embeddings_expr(
                self.emb_rel_k->0.value_expr(),
                length,
            );
            let logits = scaled.matmul_expr(embeddings.unsqueeze_expr(0).swap_dims_expr(2, 3));
            scores.plus_expr(MultiHeadAttention::relative_to_absolute_expr(logits))
        } else {
            scores
        };
        if self.proximal_bias {
            scores.plus_expr(MultiHeadAttention::attention_bias_proximal_expr(length))
        } else {
            scores
        }
    }

    /// The scores without those that the mask or the distance rules out.
    pub open spec fn masked_scores_expr(self, scores: Tensor, mask: Option<Tensor>) -> Tensor {
        let never = Scalar::literal_expr(MASKED_SCORE);
        let zero = Scalar::literal_expr(0);
        match mask {
            Some(mask) => {
                let scores = scores.mask_fill_expr(
                    mask.scalar_expr(ScalarOp::Equal, zero),
                    never,
                );
                match self.block_length {
                    Some(block_length) => {
                        let block_mask = Tensor::ones_expr(scores.shape).triu_expr(
                            (-block_length) as i64,
                        ).tril_expr(block_length as i64);
                        scores.mask_fill_expr(
                            block_mask.scalar_expr(ScalarOp::Equal, zero),
                            never,
                        )
                    },
                    None => scores,
                }
            },
            None => scores,
        }
    }

    /// What is attended to, and how much each position attends to each other.
    pub open spec fn attention_expr(
        self,
        query: Tensor,
        key: Tensor,
        value: Tensor,
        mask: Option<Tensor>,
    ) -> (Tensor, Tensor) {
        let (b, d, t_s) = (key.at(0), key.at(1), key.at(2));
        let t_t = query.at(2);
        let scores = self.scores_expr(
            self.heads_expr(query, b, t_t),
            self.heads_expr(key, b, t_s),
            t_s,
        );
        let p_attn = self.drop.forward_expr(
            self.masked_scores_expr(scores, mask).softmax_expr(3),
        );
        let output = p_attn.matmul_expr(self.heads_expr(value, b, t_s));
        let output = if self.window_size is Some {
            let embeddings = self.relative_embeddings_expr(self.emb_rel_v->0.value_expr(), t_s);
            output.plus_expr(
                MultiHeadAttention::absolute_to_relative_expr(p_attn).matmul_expr(
                    embeddings.unsqueeze_expr(0),
                ),
            )
        } else {
            output
        };
        (output.swap_dims_expr(2, 3).reshape_expr(Shape::D3(b, d, t_t)), p_attn)
    }

    pub open spec fn forward_expr(
        self,
        x: Tensor,
        c: Tensor,
        attn_mask: Option<Tensor>,
    ) -> Tensor {
        let q = self.conv_q.forward_expr(x);
        let k = self.conv_k.forward_expr(c);
        let v = self.conv_v.forward_expr(c);
        self.conv_o.forward_expr(self.attention_expr(q, k, v, attn_mask).0)
    }

    /// Whether a mask tells which positions of a batch may attend to which.
    pub open spec fn mask_fits(
        self,
        mask: Option<Tensor>,
        batch: usize,
        t_t: usize,
        t_s: usize,
    ) -> bool {
        let scores = Shape::D4(batch, self.n_heads, t_t, t_s);
        mask matches Some(mask) ==> {
            &&& mask.wf()
            &&& mask.kind == Kind::Float
            &&& scores.joins(mask.shape)
            &&& scores.joined(mask.shape) == scores
            &&& self.block_length matches Some(b) ==> t_s == t_t && b <= i64::MAX
        }
    }

    /// What the positions of `x` gather from those positions of `c` that they attend to.
    pub fn forward(&self, x: Tensor, c: Tensor, attn_mask: Option<Tensor>) -> (r: Tensor)
        requires
            x.is_signal(),
            c.is_signal(),
            c.at(0) == x.at(0),
            c.at(1) == x.at(1),
            x.at(2) >= 1,
            c.at(2) >= 1,
            self.wf(x.at(1), self.out_channels()),
            self.takes_lengths(x.at(2), c.at(2)),
            self.mask_fits(attn_mask, x.at(0), x.at(2), c.at(2)),
        ensures
            r == self.forward_expr(x, c, attn_mask),
            r.is_signal(),
            r.shape == Shape::D3(x.at(0), self.out_channels(), x.at(2)),
    {
        let q = self.conv_q.forward(x);
        let k = self.conv_k.forward(c.clone());
        let v = self.conv_v.forward(c);
        let (x, _attn) = self.attention(q, k, v, attn_mask);
        self.conv_o.forward(x)
    }

    /// A signal with its channels split among the heads.
    fn heads(&self, x: Tensor, batch: usize, length: usize) -> (r: Tensor)
        requires
            x.is_signal(),
            x.at(0) == batch,
            x.at(1) == self.n_heads * self.k_channels,
            x.at(2) == length,
        ensures
            r == self.heads_expr(x, batch, length),
            r.wf(),
            r.kind == Kind::Float,
            r.shape == Shape::D4(batch, self.n_heads, length, self.k_channels),
    {
        proof {
            let channels = x.at(1);
            assert(batch * self.n_heads * self.k_channels * length == batch * channels * length)
                by (nonlinear_arith)
                requires
                    channels == self.n_heads * self.k_channels,
            ;
        }
        x.reshape(Shape::D4(batch, self.n_heads, self.k_channels, length)).swap_dims(2, 3)
    }

    /// What is attended to, and how much each position attends to each other.
    pub fn attention(
        &self,
        query: Tensor,
        key: Tensor,
        value: Tensor,
        mask: Option<Tensor>,
    ) -> (r: (Tensor, Tensor))
        requires
            self.n_heads >= 1,
            self.relative_fits(self.emb_rel_k),
            self.relative_fits(self.emb_rel_v),
            query.is_signal(),
            key.is_signal(),
            value.is_signal(),
            value.shape == key.shape,
            query.at(0) == key.at(0),
            query.at(1) == key.at(1),
            key.at(1) == self.n_heads * self.k_channels,
            self.takes_lengths(query.at(2), key.at(2)),
            self.mask_fits(mask, key.at(0), query.at(2), key.at(2)),
        ensures
            r == self.attention_expr(query, key, value, mask),
            r.0.is_signal(),
            r.0.shape == query.shape,
            r.1.wf(),
            r.1.kind == Kind::Float,
            r.1.shape == Shape::D4(key.at(0), self.n_heads, query.at(2), key.at(2)),
    {
        let b: usize = key.shape.dim(0);
        let d: usize = key.shape.dim(1);
        let t_s: usize = key.shape.dim(2);
        let t_t: usize = query.shape.dim(2);
        proof {
            if self.window_size is Some {
                lemma_relative_sizes(b, self.n_heads, t_s);
            }
        }
        let query = self.heads(query, b, t_t);
        let key = self.heads(key, b, t_s);
        let value = self.heads(value, b, t_s);
        let scores = self.scores(query, key, t_s);
        let scores = self.masked_scores(scores, mask);
        let p_attn = self.drop.forward(scores.softmax(3));
        let output = p_attn.clone().matmul(value);
        let output = match (&self.window_size, &self.emb_rel_v) {
            (Some(_), Some(emb_rel_v)) => {
                let relative_weights = MultiHeadAttention::_absolute_position_to_relative_position(
                    p_attn.clone(),
                );
                let value_relative_embeddings = self._get_relative_embeddings(
                    emb_rel_v.value(),
                    t_s,
                );
                output.plus(
                    MultiHeadAttention::_matmul_with_relative_values(
                        relative_weights,
                        value_relative_embeddings,
                    ),
                )
            },
            _ => output,
        };
        proof {
            assert(b * self.n_heads * self.k_channels * t_t == b * d * t_t) by (nonlinear_arith)
                requires
                    d == self.n_heads * self.k_channels,
            ;
        }
        let output = output.swap_dims(2, 3).reshape(Shape::D3(b, d, t_t));
        (output, p_attn)
    }

    fn scores(&self, query: Tensor, key: Tensor, t_s: usize) -> (r: Tensor)
        requires
            self.n_heads >= 1,
            self.relative_fits(self.emb_rel_k),
            query.wf(),
            query.kind == Kind::Float,
            key.wf(),
            key.kind == Kind::Float,
            query.shape == Shape::D4(query.at(0), self.n_heads, query.at(2), self.k_channels),
            key.shape == Shape::D4(query.at(0), self.n_heads, t_s, self.k_channels),
            self.takes_lengths(query.at(2), t_s),
        ensures
            r == self.scores_expr(query, key, t_s),
            r.wf(),
            r.kind == Kind::Float,
            r.shape == Shape::D4(query.at(0), self.n_heads, query.at(2), t_s),
    {
        proof {
            if self.window_size is Some {
                lemma_relative_sizes(query.at(0), self.n_heads, t_s);
            }
        }
        let scaled = query.scalar(ScalarOp::Div, Scalar::Count(self.k_channels).sqrt());
        let mut scores = scaled.clone().matmul(key.swap_dims(2, 3));
        match (&self.window_size, &self.emb_rel_k) {
            (Some(_), Some(emb_rel_k)) => {
                let key_relative_embeddings = self._get_relative_embeddings(
                    emb_rel_k.value(),
                    t_s,
                );
                let rel_logits = MultiHeadAttention::_matmul_with_relative_keys(
                    scaled,
                    key_relative_embeddings,
                );
                let scores_local = MultiHeadAttention::_relative_position_to_absolute_position(
                    rel_logits,
                );
                scores = scores.plus(scores_local);
            },
            _ => {},
        }
        if self.proximal_bias {
            scores = scores.plus(MultiHeadAttention::_attention_bias_proximal(t_s));
        }
        scores
    }

    fn masked_scores(&self, scores: Tensor, mask: Option<Tensor>) -> (r: Tensor)
        requires
            scores.wf(),
            scores.kind == Kind::Float,
            scores.shape == Shape::D4(scores.at(0), self.n_heads, scores.at(2), scores.at(3)),
            self.mask_fits(mask, scores.at(0), scores.at(2), scores.at(3)),
        ensures
            r == self.masked_scores_expr(scores, mask),
            r.wf(),
            r.kind == Kind::Float,
            r.shape == scores.shape,
    {
        match mask {
            Some(mask) => {
                let scores = scores.mask_fill(
                    mask.scalar(ScalarOp::Equal, Scalar::literal(0)),
                    Scalar::literal(MASKED_SCORE),
                );
                match self.block_length {
                    Some(block_length) => {
                        let block_mask = Tensor::ones(scores.shape).triu(
                            -(block_length as i64),
                        ).tril(block_length as i64);
                        scores.mask_fill(
                            block_mask.scalar(ScalarOp::Equal, Scalar::literal(0)),
                            Scalar::literal(MASKED_SCORE),
                        )
                    },
                    None => scores,
                }
            },
            None => scores,
        }
    }

    /// The scores of the relative positions, for each query.
    pub fn _matmul_with_relative_keys(x: Tensor, y: Tensor) -> (r: Tensor)
        requires
            x.wf(),
            x.kind == Kind::Float,
            x.shape.rank() == 4,
            y.is_signal(),
            y.at(0) == 1 || y.at(0) == x.at(1),
            y.at(2) == x.at(3),
        ensures
            r == x.matmul_expr(y.unsqueeze_expr(0).swap_dims_expr(2, 3)),
            r.wf(),
            r.kind == Kind::Float,
            r.shape == Shape::D4(x.at(0), x.at(1), x.at(2), y.at(1)),
    {
        x.matmul(y.unsqueeze_dim(0).swap_dims(2, 3))
    }

    /// The sum of the vectors of the relative positions, by weight.
    pub fn _matmul_with_relative_values(x: Tensor, y: Tensor) -> (r: Tensor)
        requires
            x.wf(),
            x.kind == Kind::Float,
            x.shape.rank() == 4,
            y.is_signal(),
            y.at(0) == 1 || y.at(0) == x.at(1),
            y.at(1) == x.at(3),
        ensures
            r == x.matmul_expr(y.unsqueeze_expr(0)),
            r.wf(),
            r.kind == Kind::Float,
            r.shape == Shape::D4(x.at(0), x.at(1), x.at(2), y.at(2)),
    {
        x.matmul(y.unsqueeze_dim(0))
    }

    /// A preference for near positions, by the logarithm of the distance.
    pub fn _attention_bias_proximal(length: usize) -> (r: Tensor)
        ensures
            r == MultiHeadAttention::attention_bias_proximal_expr(length),
            r.wf(),
            r.kind == Kind::Float,
            r.shape == Shape::D4(1, 1, length, length),
    {
        let r = Tensor::arange(length);
        let diff = r.clone().unsqueeze_dim(0).minus(r.unsqueeze_dim(1));
        diff.unary(UnaryOp::Abs).unary(UnaryOp::ToFloat).unary(UnaryOp::Log1p).unary(
            UnaryOp::Neg,
        ).unsqueeze_dim(0).unsqueeze_dim(0)
    }

    /// The vectors of the relative positions between `length` positions, zero beyond the window.
    pub fn _get_relative_embeddings(&self, relative_embeddings: Tensor, length: usize) -> (r:
        Tensor)
        requires
            relative_embeddings.is_signal(),
            length >= 1,
            2 * length <= usize::MAX,
            ({
                let w: int = match self.window_size {
                    Some(w) => w as int,
                    None => 0,
                };
                relative_embeddings.at(1) == w * 2 + 1
            }),
        ensures
            r == self.relative_embeddings_expr(relative_embeddings, length),
            r.is_signal(),
            r.shape == Shape::D3(
                relative_embeddings.at(0),
                (2 * length - 1) as usize,
                relative_embeddings.at(2),
            ),
    {
        let window_size: usize = match self.window_size {
            Some(w) => w,
            None => 0,
        };
        let pad_length: usize = if length > window_size + 1 {
            length - (window_size + 1)
        } else {
            0
        };
        let slice_start_position: usize = if window_size + 1 > length {
            window_size + 1 - length
        } else {
            0
        };
        let slice_end_position: usize = slice_start_position + (2 * length - 1);
        let padded_relative_embeddings = if pad_length > 0 {
            relative_embeddings.pad(1, pad_length, pad_length)
        } else {
            relative_embeddings
        };
        padded_relative_embeddings.slice(1, slice_start_position, slice_end_position)
    }

    /// Weights by position turned into weights by relative position.
    pub fn _absolute_position_to_relative_position(x: Tensor) -> (r: Tensor)
        requires
            x.wf(),
            x.kind == Kind::Float,
            x.shape == Shape::D4(x.at(0), x.at(1), x.at(2), x.at(2)),
            x.at(2) >= 1,
            x.at(2) * 2 * x.at(2) <= usize::MAX,
        ensures
            r == MultiHeadAttention::absolute_to_relative_expr(x),
            r.wf(),
            r.kind == Kind::Float,
            r.shape == Shape::D4(x.at(0), x.at(1), x.at(2), (2 * x.at(2) - 1) as usize),
    {
        let batch: usize = x.shape.dim(0);
        let heads: usize = x.shape.dim(1);
        let length: usize = x.shape.dim(2);
        proof {
            lemma_relative_sizes(batch, heads, length);
        }
        let x = x.pad(3, 0, length - 1);
        let x_flat = x.reshape(
            Shape::D3(batch, heads, (length * length) + (length * (length - 1))),
        );
        let x_flat = x_flat.pad(2, length, 0);
        x_flat.reshape(Shape::D4(batch, heads, length, 2 * length)).slice(3, 1, 2 * length)
    }

    /// Scores by relative position turned into scores by position.
    pub fn _relative_position_to_absolute_position(x: Tensor) -> (r: Tensor)
        requires
            x.wf(),
            x.kind == Kind::Float,
            x.shape == Shape::D4(x.at(0), x.at(1), x.at(2), (2 * x.at(2) - 1) as usize),
            x.at(2) >= 1,
            x.at(2) * 2 * x.at(2) + x.at(2) <= usize::MAX,
        ensures
            r == MultiHeadAttention::relative_to_absolute_expr(x),
            r.wf(),
            r.kind == Kind::Float,
            r.shape == Shape::D4(x.at(0), x.at(1), x.at(2), x.at(2)),
    {
        let batch: usize = x.shape.dim(0);
        let heads: usize = x.shape.dim(1);
        let length: usize = x.shape.dim(2);
        proof {
            lemma_relative_sizes(batch, heads, length);
        }
        let x = x.pad(3, 0, 1);
        let x_flat = x.reshape(Shape::D3(batch, heads, length * 2 * length));
        let x_flat = x_flat.pad(2, 0, length - 1);
        let x_final = x_flat.reshape(Shape::D4(batch, heads, length + 1, (2 * length) - 1));
        x_final.slice(2, 0, length).slice(3, length - 1, (2 * length) - 1)
    }
}

impl MultiHeadAttention {
    /// Whether sequences of a length can attend to themselves under a mask.
    pub fn accepts_length(&self, length: usize) -> (r: bool)
        requires
            length >= 1,
        ensures
            r == (self.takes_lengths(length, length) && (self.block_length matches Some(b)
                ==> b <= i64::MAX)),
    {
        let near = match self.block_length {
            Some(b) => b as u128 <= i64::MAX as u128,
            None => true,
        };
        let room = match self.window_size {
            Some(_) => match length.checked_mul(2) {
                Some(doubled) => match doubled.checked_mul(length) {
                    Some(all) => all.checked_add(length).is_some(),
                    None => false,
                },
                None => {
                    assert(length * 2 * length >= length * 2) by (nonlinear_arith)
                        requires
                            length >= 1,
                    ;
                    false
                },
            },
            None => true,
        };
        near && room
    }
}

/// The numbers of elements of the shapes that relative positions pass through.
pub proof fn lemma_relative_sizes(batch: usize, heads: usize, length: usize)
    requires
        length >= 1,
        length * 2 * length <= usize::MAX,
    ensures
        2 * length <= length * 2 * length,
        length * length + length * (length - 1) + length == length * 2 * length,
        0 <= length * (length - 1),
        length * length <= length * 2 * length,
        batch * heads * length * (2 * length - 1) == batch * heads * (length * length + length * (
        length - 1)),
        batch * heads * length * (2 * length) == batch * heads * (length * 2 * length),
        batch * heads * (length * 2 * length + length - 1) == batch * heads * (length + 1) * (2
            * length - 1),
{
    assert(2 * length <= length * 2 * length) by (nonlinear_arith)
        requires
            length >= 1,
    ;
    assert(length * length + length * (length - 1) + length == length * 2 * length)
        by (nonlinear_arith);
    assert(0 <= length * (length - 1)) by (nonlinear_arith)
        requires
            length >= 1,
    ;
    assert(length * (2 * length - 1) == length * length + length * (length - 1))
        by (nonlinear_arith);
    assert(length * (2 * length) == length * 2 * length) by (nonlinear_arith);
    assert((length + 1) * (2 * length - 1) == length * 2 * length + length - 1)
        by (nonlinear_arith);
    let n = batch * heads;
    vstd::arithmetic::mul::lemma_mul_is_associative(n, length as int, 2 * length - 1);
    vstd::arithmetic::mul::lemma_mul_is_associative(n, length as int, 2 * length);
    vstd::arithmetic::mul::lemma_mul_is_associative(n, length + 1, 2 * length - 1);
}

// Where relative positions come from and go to.

/// The score of query `i` for key `j` is its score for the relative position `j - i`, which is
/// found `length - 1` further along.
pub proof fn lemma_relative_to_absolute(
    x: Tensor,
    b: int,
    h: int,
    i: int,
    j: int,
    leaf: spec_fn(Tensor, Seq<int>) -> int,
)
    requires
        x.shape == Shape::D4(x.at(0), x.at(1), x.at(2), (2 * x.at(2) - 1) as usize),
        x.at(2) >= 1,
        x.at(2) * 2 * x.at(2) + x.at(2) <= usize::MAX,
        0 <= b < x.at(0),
        0 <= h < x.at(1),
        0 <= i < x.at(2),
        0 <= j < x.at(2),
    ensures
        crate::element::element(
            MultiHeadAttention::relative_to_absolute_expr(x),
            seq![b, h, i, j],
            leaf,
        ) == crate::element::element(x, seq![b, h, i, j - i + x.at(2) - 1], leaf),
{
    reveal(Tensor::pad_expr);
    reveal(Tensor::reshape_expr);
    reveal(Tensor::slice_expr);
    let (batch, heads, length) = (x.at(0), x.at(1), x.at(2));
    lemma_relative_sizes(batch, heads, length);
    let wide = (2 * length) as usize;
    let narrow = (2 * length - 1) as usize;
    let all = (length * 2 * length) as usize;
    let padded = x.pad_expr(3, 0, 1);
    let joined = padded.reshape_expr(Shape::D3(batch, heads, all));
    let longer = joined.pad_expr(2, 0, (length - 1) as usize);
    let rows = longer.reshape_expr(Shape::D4(batch, heads, (length + 1) as usize, narrow));
    let cut = rows.slice_expr(2, 0, length);
    let offset = j - i + length - 1;
    let k = i * narrow + (j + length - 1);
    assert(length * wide == all) by (nonlinear_arith)
        requires
            wide == 2 * length,
            all == length * 2 * length,
    ;
    assert((length + 1) * narrow == all + length - 1) by (nonlinear_arith)
        requires
            narrow == 2 * length - 1,
            all == length * 2 * length,
    ;
    assert(k == i * wide + offset) by (nonlinear_arith)
        requires
            k == i * narrow + (j + length - 1),
            narrow == wide - 1,
            offset == j - i + length - 1,
    ;
    assert(i * wide + wide <= length * wide) by (nonlinear_arith)
        requires
            i + 1 <= length,
            wide >= 0,
    ;
    assert(0 <= i * wide) by (nonlinear_arith)
        requires
            i >= 0,
            wide >= 0,
    ;
    crate::element::lemma_slice(
        cut,
        3,
        (length - 1) as usize,
        narrow,
        seq![b, h, i, j],
        leaf,
    );
    assert(seq![b, h, i, j].update(3, j + (length - 1)) =~= seq![b, h, i, j + length - 1]);
    crate::element::lemma_slice(rows, 2, 0, length, seq![b, h, i, j + length - 1], leaf);
    assert(seq![b, h, i, j + length - 1].update(2, i + 0) =~= seq![b, h, i, j + length - 1]);
    crate::element::lemma_split_rows(
        longer,
        (length + 1) as usize,
        narrow,
        b,
        h,
        i,
        j + length - 1,
        leaf,
    );
    crate::element::lemma_pad(joined, 2, 0, (length - 1) as usize, seq![b, h, k], leaf);
    assert(seq![b, h, k].update(2, k - 0) =~= seq![b, h, k]);
    crate::element::lemma_join_rows(padded, b, h, i, offset, leaf);
    crate::element::lemma_pad(x, 3, 0, 1, seq![b, h, i, offset], leaf);
    assert(seq![b, h, i, offset].update(3, offset - 0) =~= seq![b, h, i, offset]);
}

/// The weight of query `i` for the relative position that is found at `k` is its weight for the
/// key at that position, and zero where there is no such key.
pub proof fn lemma_absolute_to_relative(
    x: Tensor,
    b: int,
    h: int,
    i: int,
    k: int,
    leaf: spec_fn(Tensor, Seq<int>) -> int,
)
    requires
        x.shape == Shape::D4(x.at(0), x.at(1), x.at(2), x.at(2)),
        x.at(2) >= 1,
        x.at(2) * 2 * x.at(2) <= usize::MAX,
        0 <= b < x.at(0),
        0 <= h < x.at(1),
        0 <= i < x.at(2),
        0 <= k < 2 * x.at(2) - 1,
    ensures
        crate::element::element(
            MultiHeadAttention::absolute_to_relative_expr(x),
            seq![b, h, i, k],
            leaf,
        ) == {
            let key = i + (k - (x.at(2) - 1));
            if 0 <= key < x.at(2) {
                crate::element::element(x, seq![b, h, i, key], leaf)
            } else {
                0
            }
        },
{
    reveal(Tensor::pad_expr);
    reveal(Tensor::reshape_expr);
    reveal(Tensor::slice_expr);
    let (batch, heads, length) = (x.at(0), x.at(1), x.at(2));
    lemma_relative_sizes(batch, heads, length);
    let wide = (2 * length) as usize;
    let narrow = (2 * length - 1) as usize;
    let all = (length * length + length * (length - 1)) as usize;
    let padded = x.pad_expr(3, 0, (length - 1) as usize);
    let joined = padded.reshape_expr(Shape::D3(batch, heads, all));
    let longer = joined.pad_expr(2, length, 0);
    let rows = longer.reshape_expr(Shape::D4(batch, heads, length, wide));
    let key = i + (k - (length - 1));
    let m = i * wide + (k + 1);
    assert(length * narrow == all) by (nonlinear_arith)
        requires
            narrow == 2 * length - 1,
            all == length * length + length * (length - 1),
    ;
    assert(length * wide == all + length) by (nonlinear_arith)
        requires
            wide == 2 * length,
            all == length * length + length * (length - 1),
    ;
    assert(m - length == i * narrow + key) by (nonlinear_arith)
        requires
            m == i * wide + (k + 1),
            narrow == wide - 1,
            key == i + (k - (length - 1)),
    ;
    assert(i * wide + wide <= length * wide && i * narrow + narrow <= length * narrow)
        by (nonlinear_arith)
        requires
            i + 1 <= length,
            wide >= 0,
            narrow >= 0,
    ;
    assert(0 <= i * wide && 0 <= i * narrow) by (nonlinear_arith)
        requires
            i >= 0,
            wide >= 0,
            narrow >= 0,
    ;
    crate::element::lemma_slice(rows, 3, 1, wide, seq![b, h, i, k], leaf);
    assert(seq![b, h, i, k].update(3, k + 1) =~= seq![b, h, i, k + 1]);
    crate::element::lemma_split_rows(longer, length, wide, b, h, i, k + 1, leaf);
    crate::element::lemma_pad(joined, 2, length, 0, seq![b, h, m], leaf);
    assert(seq![b, h, m].update(2, m - length) =~= seq![b, h, m - length]);
    if m >= length {
        let (r, c) = if key >= 0 {
            (i, key)
        } else {
            (i - 1, key + narrow)
        };
        if key < 0 {
            assert(i >= 1) by {
                if i == 0 {
                    assert(0 * wide == 0);
                }
            }
            assert(i * narrow + key == (i - 1) * narrow + (key + narrow)) by (nonlinear_arith);
        }
        crate::element::lemma_join_rows(padded, b, h, r, c, leaf);
        crate::element::lemma_pad(x, 3, 0, (length - 1) as usize, seq![b, h, r, c], leaf);
        assert(seq![b, h, r, c].update(3, c - 0) =~= seq![b, h, r, c]);
    } else {
        assert(i == 0) by {
            if i >= 1 {
                assert(i * wide >= wide) by (nonlinear_arith)
                    requires
                        i >= 1,
                        wide >= 0,
                ;
            }
        }
    }
}

/// Weights turned into weights by relative position and back are as they were.
pub proof fn lemma_relative_round_trip(
    x: Tensor,
    b: int,
    h: int,
    i: int,
    j: int,
    leaf: spec_fn(Tensor, Seq<int>) -> int,
)
    requires
        x.shape == Shape::D4(x.at(0), x.at(1), x.at(2), x.at(2)),
        x.at(2) >= 1,
        x.at(2) * 2 * x.at(2) + x.at(2) <= usize::MAX,
        0 <= b < x.at(0),
        0 <= h < x.at(1),
        0 <= i < x.at(2),
        0 <= j < x.at(2),
    ensures
        crate::element::element(
            MultiHeadAttention::relative_to_absolute_expr(
                MultiHeadAttention::absolute_to_relative_expr(x),
            ),
            seq![b, h, i, j],
            leaf,
        ) == crate::element::element(x, seq![b, h, i, j], leaf),
{
    let y = MultiHeadAttention::absolute_to_relative_expr(x);
    assert(y.shape == Shape::D4(x.at(0), x.at(1), x.at(2), (2 * x.at(2) - 1) as usize)) by {
        reveal(Tensor::reshape_expr);
        reveal(Tensor::slice_expr);
        lemma_relative_sizes(x.at(0), x.at(1), x.at(2));
    }
    lemma_relative_to_absolute(y, b, h, i, j, leaf);
    lemma_absolute_to_relative(x, b, h, i, j - i + x.at(2) - 1, leaf);
}

/// The vector used for a distance between positions is that learned for the distance, and zero
/// for a distance beyond the window.
pub proof fn lemma_relative_embeddings(
    attention: MultiHeadAttention,
    embeddings: Tensor,
    length: usize,
    n: int,
    distance: int,
    c: int,
    leaf: spec_fn(Tensor, Seq<int>) -> int,
)
    requires
        attention.window_size is Some,
        embeddings.shape == Shape::D3(
            embeddings.at(0),
            (attention.window_size->0 * 2 + 1) as usize,
            embeddings.at(2),
        ),
        attention.window_size->0 * 2 + 1 <= usize::MAX,
        length >= 1,
        2 * length <= usize::MAX,
        -length < distance < length,
    ensures
        crate::element::element(
            attention.relative_embeddings_expr(embeddings, length),
            seq![n, distance + length - 1, c],
            leaf,
        ) == {
            let w = attention.window_size->0;
            if -w <= distance <= w {
                crate::element::element(embeddings, seq![n, distance + w, c], leaf)
            } else {
                0
            }
        },
{
    let w = attention.window_size->0;
    let pad = if length > w + 1 {
        length - (w + 1)
    } else {
        0
    };
    let start = if w + 1 > length {
        w + 1 - length
    } else {
        0
    };
    let padded = if pad > 0 {
        embeddings.pad_expr(1, pad as usize, pad as usize)
    } else {
        embeddings
    };
    let at = distance + length - 1;
    crate::element::lemma_slice(
        padded,
        1,
        start as usize,
        (start + 2 * length - 1) as usize,
        seq![n, at, c],
        leaf,
    );
    assert(seq![n, at, c].update(1, at + start) =~= seq![n, at + start, c]);
    if pad > 0 {
        crate::element::lemma_pad(
            embeddings,
            1,
            pad as usize,
            pad as usize,
            seq![n, at + start, c],
            leaf,
        );
        assert(seq![n, at + start, c].update(1, at + start - pad) =~= seq![
            n,
            at + start - pad,
            c,
        ]);
    }
}

} // verus!

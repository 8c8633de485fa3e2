//! The encoder of phonemes.

use crate::attention::{FFN, FFNConfig, MultiHeadAttention, MultiHeadAttentionConfig};
use crate::limits::product_fits;
use crate::nn::{Conv1d, Conv1dConfig, Dropout, Embedding, LayerNorm};
use crate::number::{Real, Scalar};
use crate::param::Path;
use crate::shape::Shape;
use crate::tensor::{BinaryOp, Kind, ScalarOp, Tensor, UnaryOp};
use vstd::prelude::*;

verus! {

/// Which of the first `n` positions lie within each length.
pub open spec fn sequence_mask_expr(length: Tensor, n: usize) -> Tensor {
    Tensor::arange_expr(n).unsqueeze_expr(0).binary_expr(BinaryOp::Lower, length.unsqueeze_expr(1))
}

/// Which positions lie within each length, up to `max_length` positions, or to `longest` where
/// that is not given. `longest` is the greatest of the lengths, as [`longest_of`] has it computed.
pub fn sequence_mask(length: Tensor, max_length: Option<usize>, longest: usize) -> (r: Tensor)
    requires
        length.wf(),
        length.kind == Kind::Int,
        length.shape.rank() == 1,
    ensures
        r == sequence_mask_expr(
            length,
            match max_length {
                Some(val) => val,
                None => longest,
            },
        ),
        r.wf(),
        r.kind == Kind::Bool,
        r.shape == Shape::D2(
            length.at(0),
            match max_length {
                Some(val) => val,
                None => longest,
            },
        ),
{
    let max_length: usize = match max_length {
        Some(val) => val,
        None => longest,
    };
    let x = Tensor::arange(max_length);
    x.unsqueeze_dim(0).binary(BinaryOp::Lower, length.unsqueeze_dim(1))
}

/// The greatest of some lengths.
pub fn longest_of(length: &Tensor) -> (r: Tensor)
    requires
        length.wf(),
        length.kind == Kind::Int,
    ensures
        r == length.max_expr(),
        r.wf(),
        r.kind == Kind::Int,
        r.shape == Shape::D1(1),
{
    length.clone().max()
}

/// A position is within the mask just where it lies below the length of its row.
pub proof fn lemma_sequence_mask(
    length: Tensor,
    n: usize,
    row: int,
    position: int,
    leaf: spec_fn(Tensor, Seq<int>) -> int,
)
    requires
        length.shape == Shape::D1(length.at(0)),
        0 <= row < length.at(0),
        0 <= position < n,
    ensures
        crate::element::element(
            sequence_mask_expr(length, n),
            seq![row, position],
            leaf,
        ) == crate::element::truth(
            position < crate::element::element(length, seq![row], leaf),
        ),
        sequence_mask_expr(length, n).shape == Shape::D2(length.at(0), n),
{
    reveal(Tensor::leaf_expr);
    reveal(Tensor::reshape_expr);
    reveal(Tensor::binary_expr);
    let positions = Tensor::arange_expr(n);
    let across = positions.unsqueeze_expr(0);
    let down = length.unsqueeze_expr(1);
    let idx = seq![row, position];
    assert(crate::element::unstretched(across.shape, idx) =~= seq![0, position]);
    assert(crate::element::unstretched(down.shape, idx) =~= seq![row, 0]);
    assert(0 * n + position == position) by (nonlinear_arith);
    assert(row * 1 + 0 == row);
    crate::element::lemma_reshape(
        positions,
        Shape::D2(1, n),
        seq![0, position],
        seq![position],
        leaf,
    );
    crate::element::lemma_reshape(
        length,
        Shape::D2(length.at(0), 1),
        seq![row, 0],
        seq![row],
        leaf,
    );
}

/// The mask of [`sequence_mask_expr`] as ones and zeros, with a dimension for channels.
pub open spec fn signal_mask_expr(length: Tensor, n: usize) -> Tensor {
    sequence_mask_expr(length, n).unsqueeze_expr(1).unary_expr(UnaryOp::ToFloat)
}

/// The mask of [`sequence_mask`] as ones and zeros, with a dimension for channels.
pub fn signal_mask(length: Tensor, n: usize) -> (r: Tensor)
    requires
        length.wf(),
        length.kind == Kind::Int,
        length.shape.rank() == 1,
    ensures
        r == signal_mask_expr(length, n),
        r.is_signal(),
        r.shape == Shape::D3(length.at(0), 1, n),
{
    sequence_mask(length, Some(n), n).unsqueeze_dim(1).unary(UnaryOp::ToFloat)
}

/// Settings of an [`Encoder`].
#[derive(Clone, Copy, PartialEq, Eq, Debug, Structural)]
pub struct EncoderConfig {
    pub hidden_channels: usize,
    pub filter_channels: usize,
    pub n_heads: usize,
    pub n_layers: usize,
    pub kernel_size: usize,
    pub p_dropout: Real,
    pub window_size: usize,
}

/// Layers of attention and of feed-forward, each added to its input and normalised.
#[derive(Debug)]
pub struct Encoder {
    pub drop: Dropout,
    pub attn_layers: Vec<MultiHeadAttention>,
    pub norm_layers_1: Vec<LayerNorm>,
    pub ffn_layers: Vec<FFN>,
    pub norm_layers_2: Vec<LayerNorm>,
}

impl EncoderConfig {
    /// With relative positions up to a distance of four.
    pub fn new(
        hidden_channels: usize,
        filter_channels: usize,
        n_heads: usize,
        n_layers: usize,
        kernel_size: usize,
        p_dropout: Real,
    ) -> (r: EncoderConfig)
        ensures
            r == (EncoderConfig {
                hidden_channels,
                filter_channels,
                n_heads,
                n_layers,
                kernel_size,
                p_dropout,
                window_size: 4,
            }),
    {
        EncoderConfig {
            hidden_channels,
            filter_channels,
            n_heads,
            n_layers,
            kernel_size,
            p_dropout,
            window_size: 4,
        }
    }

    pub fn with_window_size(self, window_size: usize) -> (r: EncoderConfig)
        ensures
            r == (EncoderConfig { window_size, ..self }),
    {
        EncoderConfig { window_size, ..self }
    }

    /// The attention of every layer.
    pub open spec fn attention(self) -> MultiHeadAttentionConfig {
        MultiHeadAttentionConfig {
            channels: self.hidden_channels,
            out_channels: self.hidden_channels,
            n_heads: self.n_heads,
            p_dropout: self.p_dropout,
            window_size: Some(self.window_size),
            heads_share: true,
            block_length: None,
            proximal_bias: false,
            proximal_init: false,
        }
    }

    /// Whether `layer` is the feed-forward layer at a path.
    pub open spec fn describes_ffn(self, path: Path, layer: FFN) -> bool {
        &&& layer.conv_1 == Conv1dConfig::usual(
            self.hidden_channels,
            self.filter_channels,
            self.kernel_size,
        ).built(path.field_expr("conv_1"))
        &&& layer.conv_2 == Conv1dConfig::usual(
            self.filter_channels,
            self.hidden_channels,
            self.kernel_size,
        ).built(path.field_expr("conv_2"))
        &&& layer.drop.prob == self.p_dropout
        &&& !layer.causal
        &&& layer.activation@ == Seq::<char>::empty()
        &&& layer.kernel_size == self.kernel_size
    }

    pub open spec fn valid(self) -> bool {
        &&& self.p_dropout.within_unit()
        &&& self.n_layers >= 1 ==> {
            &&& self.attention().valid()
            &&& self.hidden_channels * self.kernel_size <= usize::MAX
            &&& self.filter_channels * self.kernel_size <= usize::MAX
        }
    }

    /// Whether layer `i` of `module` is made by these settings.
    pub open spec fn describes_layer(self, i: int, path: Path, module: Encoder) -> bool {
        let at = i as usize;
        &&& self.attention().describes(
            path.field_expr("attn_layers").index_expr(at),
            module.attn_layers@[i],
        )
        &&& module.norm_layers_1@[i] == LayerNorm::built(
            self.hidden_channels,
            path.field_expr("norm_layers_1").index_expr(at),
        )
        &&& self.describes_ffn(
            path.field_expr("ffn_layers").index_expr(at),
            module.ffn_layers@[i],
        )
        &&& module.norm_layers_2@[i] == LayerNorm::built(
            self.hidden_channels,
            path.field_expr("norm_layers_2").index_expr(at),
        )
    }

    /// Whether `module` is the encoder with these settings, at a path.
    pub open spec fn describes(self, path: Path, module: Encoder) -> bool {
        &&& module.drop.prob == self.p_dropout
        &&& module.attn_layers.len() == self.n_layers
        &&& module.norm_layers_1.len() == self.n_layers
        &&& module.ffn_layers.len() == self.n_layers
        &&& module.norm_layers_2.len() == self.n_layers
        &&& forall|i: int|
            0 <= i < self.n_layers ==> #[trigger] self.describes_layer(i, path, module)
    }

    /// Whether the channels divide among the heads and the filters have taps.
    pub open spec fn divides(self) -> bool {
        self.n_layers >= 1 ==> self.hidden_channels % self.n_heads == 0 && self.kernel_size >= 1
    }

    /// The encoder with these settings, at a path.
    pub fn init(&self, path: &Path) -> (r: Encoder)
        requires
            self.valid(),
        ensures
            self.describes(*path, r),
            self.divides() ==> r.wf(self.hidden_channels),
    {
        let attn_path = path.field("attn_layers");
        let norm_1_path = path.field("norm_layers_1");
        let ffn_path = path.field("ffn_layers");
        let norm_2_path = path.field("norm_layers_2");
        let mut encoder = Encoder {
            drop: Dropout::init(self.p_dropout),
            attn_layers: Vec::new(),
            norm_layers_1: Vec::new(),
            ffn_layers: Vec::new(),
            norm_layers_2: Vec::new(),
        };
        let mut i: usize = 0;
        while i < self.n_layers
            invariant
                i <= self.n_layers,
                self.valid(),
                attn_path == path.field_expr("attn_layers"),
                norm_1_path == path.field_expr("norm_layers_1"),
                ffn_path == path.field_expr("ffn_layers"),
                norm_2_path == path.field_expr("norm_layers_2"),
                encoder.drop.prob == self.p_dropout,
                encoder.attn_layers.len() == i,
                encoder.norm_layers_1.len() == i,
                encoder.ffn_layers.len() == i,
                encoder.norm_layers_2.len() == i,
                forall|a: int| 0 <= a < i ==> #[trigger] self.describes_layer(a, *path, encoder),
                self.divides() ==> encoder.wf(self.hidden_channels),
            decreases self.n_layers - i,
        {
            let ghost before = encoder;
            encoder.attn_layers.push(
                MultiHeadAttentionConfig::new(
                    self.hidden_channels,
                    self.hidden_channels,
                    self.n_heads,
                ).with_p_dropout(self.p_dropout).with_window_size(Some(self.window_size)).init(
                    &attn_path.index(i),
                ),
            );
            encoder.norm_layers_1.push(
                LayerNorm::init(self.hidden_channels, &norm_1_path.index(i)),
            );
            encoder.ffn_layers.push(
                FFNConfig::new(
                    self.hidden_channels,
                    self.hidden_channels,
                    self.filter_channels,
                    self.kernel_size,
                ).with_p_dropout(self.p_dropout).init(&ffn_path.index(i)),
            );
            encoder.norm_layers_2.push(
                LayerNorm::init(self.hidden_channels, &norm_2_path.index(i)),
            );
            proof {
                assert forall|a: int| 0 <= a < i implies #[trigger] self.describes_layer(
                    a,
                    *path,
                    encoder,
                ) by {
                    assert(self.describes_layer(a, *path, before));
                }
                assert(self.describes_layer(i as int, *path, encoder));
                if self.divides() {
                    assert forall|a: int| 0 <= a < i implies #[trigger] encoder.layer_fits(
                        a,
                        self.hidden_channels,
                    ) by {
                        assert(before.layer_fits(a, self.hidden_channels));
                    }
                    assert(encoder.layer_fits(i as int, self.hidden_channels));
                }
            }
            i += 1;
        }
        encoder
    }
}

impl Encoder {
    /// Whether layer `i` is for signals of `channels` channels.
    pub open spec fn layer_fits(self, i: int, channels: usize) -> bool {
        &&& self.attn_layers@[i].wf(channels, channels)
        &&& self.norm_layers_1@[i].features(channels)
        &&& self.ffn_layers@[i].wf(
            channels,
            self.ffn_layers@[i].filter_channels(),
            channels,
        )
        &&& self.norm_layers_2@[i].features(channels)
    }

    pub open spec fn wf(self, channels: usize) -> bool {
        let n = self.attn_layers.len();
        &&& self.norm_layers_1.len() == n
        &&& self.ffn_layers.len() == n
        &&& self.norm_layers_2.len() == n
        &&& forall|i: int| 0 <= i < n ==> #[trigger] self.layer_fits(i, channels)
    }

    /// Whether every layer can be applied to `length` positions.
    pub open spec fn takes_length(self, length: usize) -> bool {
        &&& length >= 1
        &&& forall|i: int|
            0 <= i < self.attn_layers.len() ==> (
            #[trigger] self.attn_layers@[i]).takes_lengths(length, length)
                && (self.attn_layers@[i].block_length matches Some(b) ==> b <= i64::MAX) && length
                + self.ffn_layers@[i].kernel_size <= usize::MAX
    }

    /// Which positions may attend to which: those within the mask to each other.
    pub open spec fn attn_mask_expr(x_mask: Tensor) -> Tensor {
        x_mask.unsqueeze_expr(2).times_expr(x_mask.unsqueeze_expr(3))
    }

    /// A signal after the first `n` layers.
    pub open spec fn after_expr(self, n: nat, x: Tensor, x_mask: Tensor) -> Tensor
        decreases n,
    {
        if n == 0 {
            x
        } else {
            let i = n - 1;
            let x = self.after_expr((n - 1) as nat, x, x_mask);
            let y = self.attn_layers@[i].forward_expr(
                x,
                x,
                Some(Encoder::attn_mask_expr(x_mask)),
            );
            let x = self.norm_layers_1@[i].over_channels_expr(
                x.plus_expr(self.drop.forward_expr(y)),
            );
            let y = self.ffn_layers@[i].forward_expr(x, x_mask);
            self.norm_layers_2@[i].over_channels_expr(x.plus_expr(self.drop.forward_expr(y)))
        }
    }

    pub open spec fn forward_expr(self, x: Tensor, x_mask: Tensor) -> Tensor {
        self.after_expr(
            self.attn_layers.len() as nat,
            x.times_expr(x_mask),
            x_mask,
        ).times_expr(x_mask)
    }

    /// What the layers make of `x` within the mask.
    pub fn forward(&self, x: Tensor, x_mask: Tensor) -> (r: Tensor)
        requires
            x.is_signal(),
            self.wf(x.at(1)),
            self.takes_length(x.at(2)),
            x_mask.is_signal(),
            x_mask.shape == Shape::D3(x_mask.at(0), 1, x_mask.at(2)),
            x_mask.covers(x.shape),
        ensures
            r == self.forward_expr(x, x_mask),
            r.is_signal(),
            r.shape == x.shape,
    {
        let attn_mask = x_mask.clone().unsqueeze_dim(2).times(x_mask.clone().unsqueeze_dim(3));
        let mut x = x.times(x_mask.clone());
        let ghost start = x;
        let mut i: usize = 0;
        while i < self.attn_layers.len()
            invariant
                i <= self.attn_layers.len(),
                self.wf(start.at(1)),
                self.takes_length(start.at(2)),
                x_mask.covers(start.shape),
                x_mask.shape == Shape::D3(x_mask.at(0), 1, x_mask.at(2)),
                attn_mask == Encoder::attn_mask_expr(x_mask),
                attn_mask.wf(),
                attn_mask.kind == Kind::Float,
                attn_mask.shape == Shape::D4(x_mask.at(0), 1, x_mask.at(2), x_mask.at(2)),
                x.is_signal(),
                x.shape == start.shape,
                x == self.after_expr(i as nat, start, x_mask),
            decreases self.attn_layers.len() - i,
        {
            proof {
                assert(self.layer_fits(i as int, start.at(1)));
                assert(self.attn_layers@[i as int].takes_lengths(start.at(2), start.at(2)));
            }
            let y = self.attn_layers[i].forward(x.clone(), x.clone(), Some(attn_mask.clone()));
            let y = self.drop.forward(y);
            x = self.norm_layers_1[i].over_channels(x.plus(y));
            let y = self.ffn_layers[i].forward(x.clone(), x_mask.clone());
            let y = self.drop.forward(y);
            x = self.norm_layers_2[i].over_channels(x.plus(y));
            i += 1;
        }
        x.times(x_mask)
    }
}

impl Encoder {
    /// Whether every layer can be applied to `length` positions.
    pub fn accepts_length(&self, length: usize) -> (r: bool)
        requires
            self.ffn_layers.len() == self.attn_layers.len(),
        ensures
            r == self.takes_length(length),
    {
        if length == 0 {
            return false;
        }
        let mut i: usize = 0;
        while i < self.attn_layers.len()
            invariant
                i <= self.attn_layers.len(),
                self.ffn_layers.len() == self.attn_layers.len(),
                length >= 1,
                forall|a: int|
                    0 <= a < i ==> (#[trigger] self.attn_layers@[a]).takes_lengths(length, length)
                        && (self.attn_layers@[a].block_length matches Some(b) ==> b <= i64::MAX)
                        && length + self.ffn_layers@[a].kernel_size <= usize::MAX,
            decreases self.attn_layers.len() - i,
        {
            if !self.attn_layers[i].accepts_length(length) || length.checked_add(
                self.ffn_layers[i].kernel_size,
            ).is_none() {
                proof {
                    let layer = self.attn_layers@[i as int];
                    assert(!self.takes_length(length));
                }
                return false;
            }
            i += 1;
        }
        true
    }
}

/// Settings of a [`TextEncoder`].
#[derive(Clone, Copy, PartialEq, Eq, Debug, Structural)]
pub struct TextEncoderConfig {
    pub n_vocab: usize,
    pub out_channels: usize,
    pub hidden_channels: usize,
    pub filter_channels: usize,
    pub n_heads: usize,
    pub n_layers: usize,
    pub kernel_size: usize,
    pub p_dropout: Real,
}

/// Turns phonemes into the means and spreads of a prior.
#[derive(Debug)]
pub struct TextEncoder {
    pub emb: Embedding,
    pub encoder: Encoder,
    pub proj: Conv1d,
    pub hidden_channels: usize,
    pub out_channels: usize,
}

impl TextEncoderConfig {
    pub fn new(
        n_vocab: usize,
        out_channels: usize,
        hidden_channels: usize,
        filter_channels: usize,
        n_heads: usize,
        n_layers: usize,
        kernel_size: usize,
        p_dropout: Real,
    ) -> (r: TextEncoderConfig)
        ensures
            r == (TextEncoderConfig {
                n_vocab,
                out_channels,
                hidden_channels,
                filter_channels,
                n_heads,
                n_layers,
                kernel_size,
                p_dropout,
            }),
    {
        TextEncoderConfig {
            n_vocab,
            out_channels,
            hidden_channels,
            filter_channels,
            n_heads,
            n_layers,
            kernel_size,
            p_dropout,
        }
    }

    pub open spec fn encoder(self) -> EncoderConfig {
        EncoderConfig {
            hidden_channels: self.hidden_channels,
            filter_channels: self.filter_channels,
            n_heads: self.n_heads,
            n_layers: self.n_layers,
            kernel_size: self.kernel_size,
            p_dropout: self.p_dropout,
            window_size: 4,
        }
    }

    pub open spec fn valid(self) -> bool {
        self.encoder().valid() && self.out_channels * 2 <= usize::MAX
    }

    /// Whether `module` is the encoder with these settings, at a path.
    pub open spec fn describes(self, path: Path, module: TextEncoder) -> bool {
        &&& module.emb == Embedding::built(
            self.n_vocab,
            self.hidden_channels,
            path.field_expr("emb"),
        )
        &&& self.encoder().describes(path.field_expr("encoder"), module.encoder)
        &&& module.proj == Conv1dConfig::usual(
            self.hidden_channels,
            (self.out_channels * 2) as usize,
            1,
        ).built(path.field_expr("proj"))
        &&& module.hidden_channels == self.hidden_channels
        &&& module.out_channels == self.out_channels
    }

    /// The encoder with these settings, at a path.
    pub fn init(&self, path: &Path) -> (r: TextEncoder)
        requires
            self.valid(),
        ensures
            self.describes(*path, r),
            self.encoder().divides() ==> r.wf(),
    {
        proof {
            vstd::arithmetic::div_mod::lemma_div_basics(self.hidden_channels as int);
        }
        TextEncoder {
            emb: Embedding::init(self.n_vocab, self.hidden_channels, &path.field("emb")),
            encoder: self.make_encoder().init(&path.field("encoder")),
            proj: Conv1dConfig::new(self.hidden_channels, self.out_channels * 2, 1).init(
                &path.field("proj"),
            ),
            hidden_channels: self.hidden_channels,
            out_channels: self.out_channels,
        }
    }
}

impl TextEncoder {
    pub open spec fn wf(self) -> bool {
        &&& self.emb.weight.shape == Shape::D2(
            self.emb.weight.shape.at(0),
            self.hidden_channels,
        )
        &&& self.encoder.wf(self.hidden_channels)
        &&& self.out_channels * 2 <= usize::MAX
        &&& self.proj.pointwise(self.hidden_channels, (self.out_channels * 2) as usize)
    }

    pub open spec fn forward_expr(self, x: Tensor, x_lengths: Tensor) -> (
        Tensor,
        Tensor,
        Tensor,
        Tensor,
    ) {
        let scale = Scalar::Count(self.hidden_channels).sqrt_expr();
        let x = self.emb.forward_expr(x).scalar_expr(ScalarOp::Mul, scale).swap_dims_expr(1, 2);
        let x_mask = signal_mask_expr(x_lengths, x.at(2));
        let x = self.encoder.forward_expr(x.times_expr(x_mask), x_mask);
        let stats = self.proj.forward_expr(x).times_expr(x_mask);
        (
            x,
            stats.slice_expr(1, 0, self.out_channels),
            stats.slice_expr(1, self.out_channels, (self.out_channels * 2) as usize),
            x_mask,
        )
    }

    /// The encoding of the phonemes `x`, of which each row counts as far as its length goes, with
    /// the means, the spreads and the mask.
    pub fn forward(&self, x: Tensor, x_lengths: Tensor) -> (r: (Tensor, Tensor, Tensor, Tensor))
        requires
            self.wf(),
            x.wf(),
            x.kind == Kind::Int,
            x.shape.rank() == 2,
            self.encoder.takes_length(x.at(1)),
            x_lengths.wf(),
            x_lengths.kind == Kind::Int,
            x_lengths.shape.rank() == 1,
            x_lengths.at(0) == x.at(0) || x_lengths.at(0) == 1,
        ensures
            r == self.forward_expr(x, x_lengths),
            r.0.is_signal(),
            r.0.shape == Shape::D3(x.at(0), self.hidden_channels, x.at(1)),
            r.1.is_signal(),
            r.1.shape == Shape::D3(x.at(0), self.out_channels, x.at(1)),
            r.2.is_signal(),
            r.2.shape == Shape::D3(x.at(0), self.out_channels, x.at(1)),
            r.3.is_signal(),
            r.3.shape == Shape::D3(x_lengths.at(0), 1, x.at(1)),
    {
        let x = self.emb.forward(x).scalar(
            ScalarOp::Mul,
            Scalar::Count(self.hidden_channels).sqrt(),
        );
        let x = x.swap_dims(1, 2);
        let length: usize = x.shape.dim(2);
        let x_mask = signal_mask(x_lengths, length);
        let x = self.encoder.forward(x.times(x_mask.clone()), x_mask.clone());
        let stats = self.proj.forward(x.clone()).times(x_mask.clone());
        let m = stats.clone().slice(1, 0, self.out_channels);
        let logs = stats.slice(1, self.out_channels, self.out_channels * 2);
        (x, m, logs, x_mask)
    }
}

impl EncoderConfig {
    /// Whether the encoder can be made.
    pub fn accepts(&self) -> (r: bool)
        ensures
            r == self.valid(),
    {
        self.p_dropout.is_within_unit() && (self.n_layers == 0 || self.n_heads >= 1
            && self.window_size <= (usize::MAX - 1) / 2 && product_fits(
            self.hidden_channels,
            self.kernel_size,
        ) && product_fits(self.filter_channels, self.kernel_size))
    }

    /// Whether the channels divide among the heads and the filters have taps.
    pub fn is_divided(&self) -> (r: bool)
        requires
            self.valid(),
        ensures
            r == self.divides(),
    {
        self.n_layers == 0 || self.hidden_channels % self.n_heads == 0 && self.kernel_size >= 1
    }
}

impl TextEncoderConfig {
    /// The settings of the layers.
    pub fn make_encoder(&self) -> (r: EncoderConfig)
        ensures
            r == self.encoder(),
    {
        EncoderConfig::new(
            self.hidden_channels,
            self.filter_channels,
            self.n_heads,
            self.n_layers,
            self.kernel_size,
            self.p_dropout,
        )
    }

    /// Whether the encoder can be made.
    pub fn accepts(&self) -> (r: bool)
        ensures
            r == self.valid(),
    {
        self.make_encoder().accepts() && product_fits(self.out_channels, 2)
    }
}

} // verus!

//! Stacks of dilated convolutions.

use crate::conv::{get_padding, WNConv1d, WNConv1dConfig};
use crate::limits::{product_fits, sum_fits};
use crate::nn::{Conv1d, Conv1dConfig, Dropout, LayerNorm, PaddingConfig1d};
use crate::number::Real;
use crate::param::Path;
use crate::shape::Shape;
use crate::tensor::{Tensor, UnaryOp};
use vstd::prelude::*;

verus! {

/// `base` to the power `i`.
pub open spec fn power(base: usize, i: nat) -> int
    decreases i,
{
    if i == 0 {
        1
    } else {
        base * power(base, (i - 1) as nat)
    }
}

/// Powers are not negative, nor zero for a base that is not.
proof fn lemma_power(base: usize, i: nat)
    ensures
        power(base, i) >= 0,
        base >= 1 ==> power(base, i) >= 1,
    decreases i,
{
    if i > 0 {
        lemma_power(base, (i - 1) as nat);
        let below = power(base, (i - 1) as nat);
        assert(base * below >= 0 && (base >= 1 && below >= 1 ==> base * below >= 1))
            by (nonlinear_arith)
            requires
                below >= 0,
        ;
    }
}

/// Powers of one are one.
pub proof fn lemma_power_of_one(i: nat)
    ensures
        power(1, i) == 1,
    decreases i,
{
    if i > 0 {
        lemma_power_of_one((i - 1) as nat);
    }
}

/// Settings of a [`DDSConv`].
#[derive(Clone, Copy, PartialEq, Eq, Debug, Structural)]
pub struct DDSConvConfig {
    pub channels: usize,
    pub kernel_size: usize,
    pub n_layers: usize,
    pub p_dropout: Real,
}

/// Convolutions of growing dilation, each channel by itself and then all channels at a position.
#[derive(Debug)]
pub struct DDSConv {
    pub drop: Dropout,
    pub convs_sep: Vec<Conv1d>,
    pub convs_1x1: Vec<Conv1d>,
    pub norms_1: Vec<LayerNorm>,
    pub norms_2: Vec<LayerNorm>,
    pub n_layers: usize,
}

impl DDSConvConfig {
    /// Without dropout.
    pub fn new(channels: usize, kernel_size: usize, n_layers: usize) -> (r: DDSConvConfig)
        ensures
            r == (DDSConvConfig { channels, kernel_size, n_layers, p_dropout: Real { bits: 0 } }),
    {
        DDSConvConfig { channels, kernel_size, n_layers, p_dropout: Real::from_bits(0) }
    }

    pub fn with_p_dropout(self, p_dropout: Real) -> (r: DDSConvConfig)
        ensures
            r == (DDSConvConfig { p_dropout, ..self }),
    {
        DDSConvConfig { p_dropout, ..self }
    }

    /// The convolution of layer `i` over each channel by itself.
    pub open spec fn separate(self, i: int) -> Conv1dConfig {
        let dilation = power(self.kernel_size, i as nat);
        let padding = ((self.kernel_size * dilation - dilation) / 2) as usize;
        Conv1dConfig {
            groups: self.channels,
            dilation: dilation as usize,
            padding: PaddingConfig1d::Explicit(padding, padding),
            ..Conv1dConfig::usual(self.channels, self.channels, self.kernel_size)
        }
    }

    pub open spec fn valid(self) -> bool {
        &&& self.p_dropout.within_unit()
        &&& self.n_layers >= 1 ==> self.channels >= 1 && self.kernel_size >= 1
        &&& forall|i: int|
            1 <= i <= self.n_layers ==> #[trigger] power(self.kernel_size, i as nat) <= usize::MAX
    }

    /// Whether layer `i` of `module` is made by these settings.
    pub open spec fn describes_layer(self, i: int, path: Path, module: DDSConv) -> bool {
        let at = i as usize;
        &&& module.convs_sep@[i] == self.separate(i).built(
            path.field_expr("convs_sep").index_expr(at),
        )
        &&& module.convs_1x1@[i] == Conv1dConfig::usual(self.channels, self.channels, 1).built(
            path.field_expr("convs_1x1").index_expr(at),
        )
        &&& module.norms_1@[i] == LayerNorm::built(
            self.channels,
            path.field_expr("norms_1").index_expr(at),
        )
        &&& module.norms_2@[i] == LayerNorm::built(
            self.channels,
            path.field_expr("norms_2").index_expr(at),
        )
    }

    /// Whether `module` is the stack with these settings, at a path.
    pub open spec fn describes(self, path: Path, module: DDSConv) -> bool {
        &&& module.drop.prob == self.p_dropout
        &&& module.convs_sep.len() == self.n_layers
        &&& module.convs_1x1.len() == self.n_layers
        &&& module.norms_1.len() == self.n_layers
        &&& module.norms_2.len() == self.n_layers
        &&& module.n_layers == self.n_layers
        &&& forall|i: int|
            0 <= i < self.n_layers ==> #[trigger] self.describes_layer(i, path, module)
    }

    /// The stack with these settings, at a path.
    pub fn init(&self, path: &Path) -> (r: DDSConv)
        requires
            self.valid(),
        ensures
            self.describes(*path, r),
            self.n_layers >= 1 ==> self.kernel_size % 2 == 1 ==> r.wf(self.channels),
            self.n_layers == 0 ==> r.wf(self.channels),
    {
        let sep_path = path.field("convs_sep");
        let all_path = path.field("convs_1x1");
        let norm_1_path = path.field("norms_1");
        let norm_2_path = path.field("norms_2");
        let mut module = DDSConv {
            drop: Dropout::init(self.p_dropout),
            convs_sep: Vec::new(),
            convs_1x1: Vec::new(),
            norms_1: Vec::new(),
            norms_2: Vec::new(),
            n_layers: self.n_layers,
        };
        let mut dilation: usize = 1;
        let mut i: usize = 0;
        while i < self.n_layers
            invariant
                i <= self.n_layers,
                self.valid(),
                sep_path == path.field_expr("convs_sep"),
                all_path == path.field_expr("convs_1x1"),
                norm_1_path == path.field_expr("norms_1"),
                norm_2_path == path.field_expr("norms_2"),
                dilation == power(self.kernel_size, i as nat),
                module.drop.prob == self.p_dropout,
                module.n_layers == self.n_layers,
                module.convs_sep.len() == i,
                module.convs_1x1.len() == i,
                module.norms_1.len() == i,
                module.norms_2.len() == i,
                forall|a: int| 0 <= a < i ==> #[trigger] self.describes_layer(a, *path, module),
                self.kernel_size % 2 == 1 ==> forall|a: int|
                    0 <= a < i ==> #[trigger] module.layer_fits(a, self.channels),
            decreases self.n_layers - i,
        {
            let ghost before = module;
            proof {
                let next = i + 1;
                assert(power(self.kernel_size, next as nat) <= usize::MAX);
                lemma_power(self.kernel_size, i as nat);
                crate::conv::lemma_reach(self.kernel_size, dilation);
                assert(self.channels / self.channels == 1 && self.channels % self.channels == 0)
                    by (nonlinear_arith)
                    requires
                        self.channels >= 1,
                ;
                vstd::arithmetic::div_mod::lemma_div_basics(self.channels as int);
            }
            let padding: usize = get_padding(self.kernel_size, dilation);
            let mut separate = Conv1dConfig::new(self.channels, self.channels, self.kernel_size);
            separate.groups = self.channels;
            separate.dilation = dilation;
            separate.padding = PaddingConfig1d::Explicit(padding, padding);
            module.convs_sep.push(separate.init(&sep_path.index(i)));
            module.convs_1x1.push(
                Conv1dConfig::new(self.channels, self.channels, 1).init(&all_path.index(i)),
            );
            module.norms_1.push(LayerNorm::init(self.channels, &norm_1_path.index(i)));
            module.norms_2.push(LayerNorm::init(self.channels, &norm_2_path.index(i)));
            proof {
                assert forall|a: int| 0 <= a < i implies #[trigger] self.describes_layer(
                    a,
                    *path,
                    module,
                ) by {
                    assert(self.describes_layer(a, *path, before));
                }
                assert(self.describes_layer(i as int, *path, module));
                if self.kernel_size % 2 == 1 {
                    assert forall|a: int| 0 <= a < i implies #[trigger] module.layer_fits(
                        a,
                        self.channels,
                    ) by {
                        assert(before.layer_fits(a, self.channels));
                    }
                    assert(module.layer_fits(i as int, self.channels));
                }
            }
            dilation = self.kernel_size * dilation;
            i += 1;
        }
        module
    }
}

impl DDSConv {
    /// Whether layer `i` leaves signals of `channels` channels as they are in shape.
    pub open spec fn layer_fits(self, i: int, channels: usize) -> bool {
        &&& self.convs_sep@[i].keeps_length(channels, channels)
        &&& self.convs_1x1@[i].pointwise(channels, channels)
        &&& self.norms_1@[i].features(channels)
        &&& self.norms_2@[i].features(channels)
    }

    pub open spec fn wf(self, channels: usize) -> bool {
        &&& self.convs_sep.len() == self.n_layers
        &&& self.convs_1x1.len() == self.n_layers
        &&& self.norms_1.len() == self.n_layers
        &&& self.norms_2.len() == self.n_layers
        &&& forall|i: int| 0 <= i < self.n_layers ==> #[trigger] self.layer_fits(i, channels)
    }

    /// Whether signals of a length can be padded for every layer.
    pub open spec fn takes_length(self, length: usize) -> bool {
        &&& length >= 1
        &&& forall|i: int|
            0 <= i < self.n_layers ==> (#[trigger] self.convs_sep@[i]).room_for(length)
    }

    /// A signal with the condition added, where there is one.
    pub open spec fn conditioned_expr(x: Tensor, g: Option<Tensor>) -> Tensor {
        match g {
            Some(g) => x.plus_expr(g),
            None => x,
        }
    }

    /// A signal after the first `n` layers.
    pub open spec fn after_expr(self, n: nat, x: Tensor, x_mask: Tensor) -> Tensor
        decreases n,
    {
        if n == 0 {
            x
        } else {
            let i = n - 1;
            let x = self.after_expr((n - 1) as nat, x, x_mask);
            let y = self.convs_sep@[i].forward_expr(x.times_expr(x_mask));
            let y = self.norms_1@[i].over_channels_expr(y).unary_expr(UnaryOp::Gelu);
            let y = self.convs_1x1@[i].forward_expr(y);
            let y = self.norms_2@[i].over_channels_expr(y).unary_expr(UnaryOp::Gelu);
            x.plus_expr(self.drop.forward_expr(y))
        }
    }

    pub open spec fn forward_expr(self, x: Tensor, x_mask: Tensor, g: Option<Tensor>) -> Tensor {
        self.after_expr(
            self.n_layers as nat,
            DDSConv::conditioned_expr(x, g),
            x_mask,
        ).times_expr(x_mask)
    }

    /// What the layers make of `x` within the mask, under a condition. The shape stays as it is.
    pub fn forward(&self, x: Tensor, x_mask: Tensor, g: Option<Tensor>) -> (r: Tensor)
        requires
            x.is_signal(),
            self.wf(x.at(1)),
            self.takes_length(x.at(2)),
            x_mask.covers(x.shape),
            g matches Some(g) ==> g.covers(x.shape),
        ensures
            r == self.forward_expr(x, x_mask, g),
            r.is_signal(),
            r.shape == x.shape,
    {
        let mut x = match g {
            Some(g) => x.plus(g),
            None => x,
        };
        let ghost start = x;
        let mut i: usize = 0;
        while i < self.n_layers
            invariant
                i <= self.n_layers,
                self.wf(start.at(1)),
                self.takes_length(start.at(2)),
                x_mask.covers(start.shape),
                x.is_signal(),
                x.shape == start.shape,
                x == self.after_expr(i as nat, start, x_mask),
            decreases self.n_layers - i,
        {
            proof {
                assert(self.layer_fits(i as int, start.at(1)));
            }
            let y = self.convs_sep[i].forward(x.clone().times(x_mask.clone()));
            let y = self.norms_1[i].over_channels(y).unary(UnaryOp::Gelu);
            let y = self.convs_1x1[i].forward(y);
            let y = self.norms_2[i].over_channels(y).unary(UnaryOp::Gelu);
            let y = self.drop.forward(y);
            x = x.plus(y);
            i += 1;
        }
        x.times(x_mask)
    }
}

impl DDSConv {
    /// Whether signals of a length can be padded for every layer.
    pub fn accepts_length(&self, length: usize) -> (r: bool)
        requires
            self.convs_sep.len() == self.n_layers,
        ensures
            r == self.takes_length(length),
    {
        if length == 0 {
            return false;
        }
        let mut i: usize = 0;
        while i < self.n_layers
            invariant
                i <= self.n_layers,
                self.convs_sep.len() == self.n_layers,
                forall|a: int| 0 <= a < i ==> (#[trigger] self.convs_sep@[a]).room_for(length),
            decreases self.n_layers - i,
        {
            if !self.convs_sep[i].has_room_for(length) {
                proof {
                    let layer = self.convs_sep@[i as int];
                    assert(!self.takes_length(length));
                }
                return false;
            }
            i += 1;
        }
        true
    }
}

/// Settings of a [`WN`].
#[derive(Clone, Copy, PartialEq, Eq, Debug, Structural)]
pub struct WNConfig {
    pub hidden_channels: usize,
    pub kernel_size: usize,
    pub dilation_rate: usize,
    pub n_layers: usize,
    pub gin_channels: usize,
    pub p_dropout: Real,
}

/// Gated convolutions of growing dilation, whose outputs are summed.
#[derive(Debug)]
pub struct WN {
    pub in_layers: Vec<WNConv1d>,
    pub res_skip_layers: Vec<WNConv1d>,
    pub drop: Dropout,
    pub cond_layer: Option<WNConv1d>,
    pub hidden_channels: usize,
    pub n_layers: usize,
}

impl WNConfig {
    /// Without condition and dropout.
    pub fn new(
        hidden_channels: usize,
        kernel_size: usize,
        dilation_rate: usize,
        n_layers: usize,
    ) -> (r: WNConfig)
        ensures
            r == (WNConfig {
                hidden_channels,
                kernel_size,
                dilation_rate,
                n_layers,
                gin_channels: 0,
                p_dropout: Real { bits: 0 },
            }),
    {
        WNConfig {
            hidden_channels,
            kernel_size,
            dilation_rate,
            n_layers,
            gin_channels: 0,
            p_dropout: Real::from_bits(0),
        }
    }

    pub fn with_gin_channels(self, gin_channels: usize) -> (r: WNConfig)
        ensures
            r == (WNConfig { gin_channels, ..self }),
    {
        WNConfig { gin_channels, ..self }
    }

    pub fn with_p_dropout(self, p_dropout: Real) -> (r: WNConfig)
        ensures
            r == (WNConfig { p_dropout, ..self }),
    {
        WNConfig { p_dropout, ..self }
    }

    /// The dilation of layer `i`.
    pub open spec fn dilation(self, i: int) -> int {
        power(self.dilation_rate, i as nat)
    }

    pub open spec fn valid(self) -> bool {
        &&& self.kernel_size % 2 == 1
        &&& self.p_dropout.within_unit()
        &&& self.gin_channels != 0 ==> 2 * self.hidden_channels * self.n_layers <= usize::MAX
        &&& self.n_layers >= 1 ==> 2 * self.hidden_channels <= usize::MAX && self.hidden_channels
            * self.kernel_size <= usize::MAX
        &&& forall|i: int|
            0 <= i < self.n_layers ==> #[trigger] self.dilation(i) <= usize::MAX
                && self.kernel_size * self.dilation(i) <= usize::MAX
    }

    /// The convolution that layer `i` begins with.
    pub open spec fn in_layer(self, i: int) -> WNConv1dConfig {
        let dilation = self.dilation(i);
        WNConv1dConfig {
            dilation: dilation as usize,
            padding: ((self.kernel_size * dilation - dilation) / 2) as usize,
            ..WNConv1dConfig::usual(
                self.hidden_channels,
                (2 * self.hidden_channels) as usize,
                self.kernel_size,
            )
        }
    }

    /// The channels that layer `i` ends with: what goes on and what is summed, or, in the last
    /// layer, only the latter.
    pub open spec fn res_skip_channels(self, i: int) -> usize {
        if i < self.n_layers - 1 {
            (2 * self.hidden_channels) as usize
        } else {
            self.hidden_channels
        }
    }

    /// Whether layer `i` of `module` is made by these settings.
    pub open spec fn describes_layer(self, i: int, path: Path, module: WN) -> bool {
        &&& module.in_layers@[i] == self.in_layer(i).built(
            path.field_expr("in_layers").index_expr(i as usize),
        )
        &&& module.res_skip_layers@[i] == WNConv1dConfig::usual(
            self.hidden_channels,
            self.res_skip_channels(i),
            1,
        ).built(path.field_expr("res_skip_layers").index_expr(i as usize))
    }

    /// Whether `module` is the stack with these settings, at a path.
    pub open spec fn describes(self, path: Path, module: WN) -> bool {
        &&& module.in_layers.len() == self.n_layers
        &&& module.res_skip_layers.len() == self.n_layers
        &&& forall|i: int|
            0 <= i < self.n_layers ==> #[trigger] self.describes_layer(i, path, module)
        &&& module.drop.prob == self.p_dropout
        &&& module.cond_layer == if self.gin_channels != 0 {
            Some(
                WNConv1dConfig::usual(
                    self.gin_channels,
                    (2 * self.hidden_channels * self.n_layers) as usize,
                    1,
                ).built(path.field_expr("cond_layer")),
            )
        } else {
            None
        }
        &&& module.hidden_channels == self.hidden_channels
        &&& module.n_layers == self.n_layers
    }

    /// The stack with these settings, at a path.
    pub fn init(&self, path: &Path) -> (r: WN)
        requires
            self.valid(),
        ensures
            self.describes(*path, r),
            self.dilation_rate >= 1 ==> r.wf(),
            r.hidden_channels == self.hidden_channels,
            r.cond_layer matches Some(cond) ==> cond.channels_in() == self.gin_channels,
    {
        let in_path = path.field("in_layers");
        let skip_path = path.field("res_skip_layers");
        let cond_layer = if self.gin_channels != 0 {
            proof {
                if self.n_layers == 0 {
                    assert(2 * self.hidden_channels * self.n_layers == 0) by (nonlinear_arith)
                        requires
                            self.n_layers == 0,
                    ;
                }
            }
            let width: usize = if self.n_layers == 0 {
                0
            } else {
                2 * self.hidden_channels * self.n_layers
            };
            Some(
                WNConv1dConfig::new(self.gin_channels, width, 1).init(
                    &path.field("cond_layer"),
                ),
            )
        } else {
            None
        };
        let mut module = WN {
            in_layers: Vec::new(),
            res_skip_layers: Vec::new(),
            drop: Dropout::init(self.p_dropout),
            cond_layer,
            hidden_channels: self.hidden_channels,
            n_layers: self.n_layers,
        };
        let ghost cond_layer = module.cond_layer;
        let mut dilation: usize = 1;
        let mut i: usize = 0;
        while i < self.n_layers
            invariant
                i <= self.n_layers,
                self.valid(),
                in_path == path.field_expr("in_layers"),
                skip_path == path.field_expr("res_skip_layers"),
                i < self.n_layers ==> dilation == self.dilation(i as int),
                module.in_layers.len() == i,
                module.res_skip_layers.len() == i,
                module.drop.prob == self.p_dropout,
                module.cond_layer == cond_layer,
                module.hidden_channels == self.hidden_channels,
                module.n_layers == self.n_layers,
                forall|a: int| 0 <= a < i ==> #[trigger] self.describes_layer(a, *path, module),
                self.dilation_rate >= 1 ==> forall|a: int|
                    0 <= a < i ==> #[trigger] module.layer_fits(a),
            decreases self.n_layers - i,
        {
            let ghost before = module;
            proof {
                assert(self.dilation(i as int) <= usize::MAX && self.kernel_size * self.dilation(
                    i as int,
                ) <= usize::MAX);
                lemma_power(self.dilation_rate, i as nat);
                crate::conv::lemma_reach(self.kernel_size, dilation);
                vstd::arithmetic::div_mod::lemma_div_basics(self.hidden_channels as int);
            }
            let padding: usize = get_padding(self.kernel_size, dilation);
            module.in_layers.push(
                WNConv1dConfig::new(
                    self.hidden_channels,
                    2 * self.hidden_channels,
                    self.kernel_size,
                ).with_dilation(dilation).with_padding(padding).init(&in_path.index(i)),
            );
            let res_skip_channels: usize = if i < self.n_layers - 1 {
                2 * self.hidden_channels
            } else {
                self.hidden_channels
            };
            module.res_skip_layers.push(
                WNConv1dConfig::new(self.hidden_channels, res_skip_channels, 1).init(
                    &skip_path.index(i),
                ),
            );
            proof {
                assert forall|a: int| 0 <= a < i implies #[trigger] self.describes_layer(
                    a,
                    *path,
                    module,
                ) by {
                    assert(self.describes_layer(a, *path, before));
                }
                assert(self.describes_layer(i as int, *path, module));
                if self.dilation_rate >= 1 {
                    assert forall|a: int| 0 <= a < i implies #[trigger] module.layer_fits(a) by {
                        assert(before.layer_fits(a));
                    }
                    assert(module.layer_fits(i as int));
                }
            }
            i += 1;
            if i < self.n_layers {
                proof {
                    assert(self.dilation(i as int) <= usize::MAX);
                }
                dilation = self.dilation_rate * dilation;
            }
        }
        module
    }
}

/// What passes a gate: `tanh` of one half of the summed channels times `sigmoid` of the other.
pub open spec fn fused_expr(input_a: Tensor, input_b: Tensor, n_channels: usize) -> Tensor {
    let in_act = input_a.plus_expr(input_b);
    let t_act = in_act.slice_expr(1, 0, n_channels).unary_expr(UnaryOp::Tanh);
    let s_act = in_act.slice_expr(1, n_channels, in_act.at(1)).unary_expr(UnaryOp::Sigmoid);
    t_act.times_expr(s_act)
}

/// What passes a gate: `tanh` of the first `n_channels_int` of the summed channels times
/// `sigmoid` of the others.
pub fn fused_add_tanh_sigmoid_multiply(
    input_a: Tensor,
    input_b: Tensor,
    n_channels_int: usize,
) -> (r: Tensor)
    requires
        input_a.is_signal(),
        input_b.is_signal(),
        input_a.shape.joins(input_b.shape),
        n_channels_int <= input_a.shape.joined(input_b.shape).at(1),
        Shape::sizes_agree(
            n_channels_int,
            (input_a.shape.joined(input_b.shape).at(1) - n_channels_int) as usize,
        ),
    ensures
        r == fused_expr(input_a, input_b, n_channels_int),
        r.is_signal(),
        r.shape == input_a.shape.joined(input_b.shape).resized(
            1,
            Shape::joined_size(
                n_channels_int,
                (input_a.shape.joined(input_b.shape).at(1) - n_channels_int) as usize,
            ),
        ),
{
    let in_act = input_a.plus(input_b);
    let channels: usize = in_act.shape.dim(1);
    let t_act = in_act.clone().slice(1, 0, n_channels_int).unary(UnaryOp::Tanh);
    let s_act = in_act.slice(1, n_channels_int, channels).unary(UnaryOp::Sigmoid);
    t_act.times(s_act)
}

impl WN {
    /// Whether layer `i` takes the hidden channels to twice as many and back.
    pub open spec fn layer_fits(self, i: int) -> bool {
        let doubled = (2 * self.hidden_channels) as usize;
        &&& 2 * self.hidden_channels <= usize::MAX
        &&& self.in_layers@[i].keeps_length(self.hidden_channels, doubled)
        &&& self.res_skip_layers@[i].keeps_length(
            self.hidden_channels,
            if i < self.n_layers - 1 {
                doubled
            } else {
                self.hidden_channels
            },
        )
        &&& self.res_skip_layers@[i].padding == 0
    }

    pub open spec fn wf(self) -> bool {
        &&& self.in_layers.len() == self.n_layers
        &&& self.res_skip_layers.len() == self.n_layers
        &&& forall|i: int| 0 <= i < self.n_layers ==> #[trigger] self.layer_fits(i)
        &&& self.cond_layer matches Some(cond) ==> {
            &&& 2 * self.hidden_channels * self.n_layers <= usize::MAX
            &&& cond.keeps_length(
                cond.channels_in() as usize,
                (2 * self.hidden_channels * self.n_layers) as usize,
            )
            &&& cond.padding == 0
        }
    }

    /// Whether signals of a length can be padded for every layer.
    pub open spec fn takes_length(self, length: usize) -> bool {
        &&& length >= 1
        &&& forall|i: int|
            0 <= i < self.n_layers ==> length + (#[trigger] self.in_layers@[i]).padding
                + self.in_layers@[i].padding <= usize::MAX
    }

    /// Whether a condition applies to signals of a shape without stretching them.
    pub open spec fn cond_fits(self, g: Option<Tensor>, x: Shape) -> bool {
        match (g, self.cond_layer) {
            (Some(g), Some(cond)) => {
                &&& g.is_signal()
                &&& g.at(1) == cond.channels_in()
                &&& g.at(2) >= 1
                &&& g.at(0) == x.at(0) || g.at(0) == 1
                &&& g.at(2) == x.at(2) || g.at(2) == 1
            },
            _ => true,
        }
    }

    /// The condition for all layers, where it is used.
    pub open spec fn condition_expr(self, g: Option<Tensor>) -> Option<Tensor> {
        match (g, self.cond_layer) {
            (Some(g), Some(cond)) => Some(cond.forward_expr(g)),
            _ => None,
        }
    }

    /// What layer `i` ends with for a signal `x`, under the condition for all layers.
    pub open spec fn res_skip_expr(self, i: int, x: Tensor, g: Option<Tensor>) -> Tensor {
        let x_in = self.in_layers@[i].forward_expr(x);
        let offset = i * (2 * self.hidden_channels);
        let g_l = match g {
            Some(g) => g.slice_expr(
                1,
                offset as usize,
                (offset + 2 * self.hidden_channels) as usize,
            ),
            None => Tensor::zeros_expr(x_in.shape),
        };
        self.res_skip_layers@[i].forward_expr(
            self.drop.forward_expr(fused_expr(x_in, g_l, self.hidden_channels)),
        )
    }

    /// The signal and the sum after the first `n` layers.
    pub open spec fn after_expr(
        self,
        n: nat,
        x: Tensor,
        x_mask: Tensor,
        g: Option<Tensor>,
    ) -> (Tensor, Tensor)
        decreases n,
    {
        if n == 0 {
            (x, Tensor::zeros_expr(x.shape))
        } else {
            let (x, output) = self.after_expr((n - 1) as nat, x, x_mask, g);
            let acts = self.res_skip_expr(n - 1, x, g);
            if n - 1 < self.n_layers - 1 {
                let h = self.hidden_channels;
                (
                    x.plus_expr(acts.slice_expr(1, 0, h)).times_expr(x_mask),
                    output.plus_expr(acts.slice_expr(1, h, acts.at(1))),
                )
            } else {
                (x, output.plus_expr(acts))
            }
        }
    }

    pub open spec fn forward_expr(self, x: Tensor, x_mask: Tensor, g: Option<Tensor>) -> Tensor {
        self.after_expr(
            self.n_layers as nat,
            x,
            x_mask,
            self.condition_expr(g),
        ).1.times_expr(x_mask)
    }

    /// The sum of what the layers make of `x` within the mask, under a condition. The shape stays
    /// as it is.
    pub fn forward(&self, x: Tensor, x_mask: Tensor, g: Option<Tensor>) -> (r: Tensor)
        requires
            self.wf(),
            x.is_signal(),
            x.at(1) == self.hidden_channels,
            self.takes_length(x.at(2)),
            x_mask.covers(x.shape),
            self.cond_fits(g, x.shape),
        ensures
            r == self.forward_expr(x, x_mask, g),
            r.is_signal(),
            r.shape == x.shape,
    {
        let mut x = x;
        let ghost start = x;
        let mut output = Tensor::zeros(x.shape);
        let ghost given = g;
        let g = match (g, &self.cond_layer) {
            (Some(g), Some(cond_layer)) => Some(cond_layer.forward(g)),
            _ => None,
        };
        let mut i: usize = 0;
        while i < self.n_layers
            invariant
                i <= self.n_layers,
                self.wf(),
                self.takes_length(start.at(2)),
                x_mask.covers(start.shape),
                start.at(1) == self.hidden_channels,
                g == self.condition_expr(given),
                g matches Some(g) ==> {
                    &&& g.is_signal()
                    &&& 2 * self.hidden_channels * self.n_layers <= usize::MAX
                    &&& g.at(1) == 2 * self.hidden_channels * self.n_layers
                    &&& g.at(0) == start.at(0) || g.at(0) == 1
                    &&& g.at(2) == start.at(2) || g.at(2) == 1
                },
                x.is_signal(),
                x.shape == start.shape,
                output.is_signal(),
                output.shape == start.shape,
                (x, output) == self.after_expr(i as nat, start, x_mask, g),
            decreases self.n_layers - i,
        {
            proof {
                assert(self.layer_fits(i as int));
                let doubled = 2 * self.hidden_channels;
                assert(i * doubled + doubled <= doubled * self.n_layers && 0 <= i * doubled)
                    by (nonlinear_arith)
                    requires
                        i + 1 <= self.n_layers,
                        doubled >= 0,
                ;
            }
            let x_in = self.in_layers[i].forward(x.clone());
            let g_l = match &g {
                Some(g) => {
                    let cond_offset: usize = i * (2 * self.hidden_channels);
                    g.clone().slice(1, cond_offset, cond_offset + 2 * self.hidden_channels)
                },
                None => Tensor::zeros(x_in.shape),
            };
            let acts = fused_add_tanh_sigmoid_multiply(x_in, g_l, self.hidden_channels);
            let acts = self.drop.forward(acts);
            let res_skip_acts = self.res_skip_layers[i].forward(acts);
            if i < self.n_layers - 1 {
                let width: usize = res_skip_acts.shape.dim(1);
                let res_acts = res_skip_acts.clone().slice(1, 0, self.hidden_channels);
                x = x.plus(res_acts).times(x_mask.clone());
                output = output.plus(res_skip_acts.slice(1, self.hidden_channels, width));
            } else {
                output = output.plus(res_skip_acts);
            }
            i += 1;
        }
        output.times(x_mask)
    }
}

impl WN {
    /// Whether signals of a length can be padded for every layer.
    pub fn accepts_length(&self, length: usize) -> (r: bool)
        requires
            self.in_layers.len() == self.n_layers,
        ensures
            r == self.takes_length(length),
    {
        if length == 0 {
            return false;
        }
        let mut i: usize = 0;
        while i < self.n_layers
            invariant
                i <= self.n_layers,
                self.in_layers.len() == self.n_layers,
                forall|a: int|
                    0 <= a < i ==> length + (#[trigger] self.in_layers@[a]).padding
                        + self.in_layers@[a].padding <= usize::MAX,
            decreases self.n_layers - i,
        {
            if !sum_fits(length, self.in_layers[i].padding, self.in_layers[i].padding) {
                proof {
                    let layer = self.in_layers@[i as int];
                    assert(!self.takes_length(length));
                }
                return false;
            }
            i += 1;
        }
        true
    }
}

impl WNConfig {
    /// Whether the stack, with layers that are not dilated, can be made.
    pub fn accepts_undilated(&self) -> (r: bool)
        requires
            self.dilation_rate == 1,
        ensures
            r == self.valid(),
    {
        proof {
            assert forall|i: int| 0 <= i < self.n_layers implies #[trigger] self.dilation(i)
                == 1 by {
                lemma_power_of_one(i as nat);
            }
            if self.n_layers >= 1 {
                assert(self.dilation(0) == 1);
            }
        }
        let wide = match self.hidden_channels.checked_mul(2) {
            Some(doubled) => self.gin_channels == 0 || product_fits(doubled, self.n_layers),
            None => {
                proof {
                    if self.n_layers >= 1 {
                        assert(2 * self.hidden_channels * self.n_layers >= 2
                            * self.hidden_channels) by (nonlinear_arith)
                            requires
                                self.n_layers >= 1,
                        ;
                    } else {
                        assert(2 * self.hidden_channels * self.n_layers == 0) by (nonlinear_arith)
                            requires
                                self.n_layers == 0,
                        ;
                    }
                }
                self.n_layers == 0
            },
        };
        self.kernel_size % 2 == 1 && self.p_dropout.is_within_unit() && wide && (self.n_layers == 0
            || product_fits(2, self.hidden_channels) && product_fits(
            self.hidden_channels,
            self.kernel_size,
        ))
    }
}

} // verus!

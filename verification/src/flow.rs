//! Invertible transformations of signals.

use crate::nn::{Conv1d, Conv1dConfig};
use crate::number::{Real, Scalar};
use crate::param::{Param, Path, Start};
use crate::shape::Shape;
use crate::tensor::{ScalarOp, Single, Tensor, UnaryOp};
use crate::wavenet::{WN, WNConfig};
use vstd::prelude::*;

verus! {

/// 1e-5
pub const LOG_FLOOR: u64 = 0x3EE4_F8B5_88E3_68F1;

/// The channels in reverse order.
#[derive(Clone, Copy, PartialEq, Eq, Debug, Structural)]
pub struct Flip {}

impl Flip {
    /// The channels of `x` in reverse order, in either direction.
    pub fn forward(&self, x: Tensor, reverse: bool) -> (r: (Tensor, Single))
        requires
            x.is_signal(),
        ensures
            r.0 == x.flip_expr(1),
            r.0.is_signal(),
            r.0.shape == x.shape,
            r.1 is Zero,
    {
        (x.flip(1), Single::Zero)
    }
}

/// The logarithm.
#[derive(Clone, Copy, PartialEq, Eq, Debug, Structural)]
pub struct Log {}

impl Log {
    pub open spec fn forward_expr(x: Tensor, x_mask: Tensor, reverse: bool) -> (Tensor, Single) {
        if !reverse {
            let y = x.scalar_expr(
                ScalarOp::ClampMin,
                Scalar::literal_expr(LOG_FLOOR),
            ).unary_expr(UnaryOp::Log).times_expr(x_mask);
            (
                y,
                Single::First(y.unary_expr(UnaryOp::Neg).sum_dim_expr(1).sum_dim_expr(2)),
            )
        } else {
            (x.unary_expr(UnaryOp::Exp).times_expr(x_mask), Single::Zero)
        }
    }

    /// The logarithm of `x` within the mask, or in reverse the exponential.
    pub fn forward(&self, x: Tensor, x_mask: Tensor, reverse: bool) -> (r: (Tensor, Single))
        requires
            x.is_signal(),
            x_mask.is_signal(),
            x.shape.joins(x_mask.shape),
            !reverse ==> x.shape.joined(x_mask.shape).at(0) >= 1,
        ensures
            r == Log::forward_expr(x, x_mask, reverse),
            r.0.is_signal(),
            r.0.shape == x.shape.joined(x_mask.shape),
    {
        if !reverse {
            let y = x.scalar(ScalarOp::ClampMin, Scalar::literal(LOG_FLOOR)).unary(
                UnaryOp::Log,
            ).times(x_mask);
            let logdet = y.clone().unary(UnaryOp::Neg).sum_dim(1).sum_dim(2);
            (y, Single::First(logdet))
        } else {
            (x.unary(UnaryOp::Exp).times(x_mask), Single::Zero)
        }
    }
}

/// Settings of an [`ElementwiseAffine`].
#[derive(Clone, Copy, PartialEq, Eq, Debug, Structural)]
pub struct ElementwiseAffineConfig {
    pub channels: usize,
}

/// A shift and a scale for each channel.
#[derive(Debug)]
pub struct ElementwiseAffine {
    pub m: Param,
    pub logs: Param,
}

impl ElementwiseAffineConfig {
    pub fn new(channels: usize) -> (r: ElementwiseAffineConfig)
        ensures
            r == (ElementwiseAffineConfig { channels }),
    {
        ElementwiseAffineConfig { channels }
    }

    /// The layer with these settings, at a path: the identity, until weights are loaded.
    pub open spec fn built(self, path: Path) -> ElementwiseAffine {
        ElementwiseAffine {
            m: Param {
                path: path.field_expr("m"),
                shape: Shape::D2(self.channels, 1),
                start: Start::Zeros,
            },
            logs: Param {
                path: path.field_expr("logs"),
                shape: Shape::D2(self.channels, 1),
                start: Start::Zeros,
            },
        }
    }

    /// The layer with these settings, at a path.
    pub fn init(&self, path: &Path) -> (r: ElementwiseAffine)
        ensures
            r == self.built(*path),
            r.wf(self.channels),
    {
        ElementwiseAffine {
            m: Param {
                path: path.field("m"),
                shape: Shape::D2(self.channels, 1),
                start: Start::Zeros,
            },
            logs: Param {
                path: path.field("logs"),
                shape: Shape::D2(self.channels, 1),
                start: Start::Zeros,
            },
        }
    }
}

impl ElementwiseAffine {
    pub open spec fn wf(self, channels: usize) -> bool {
        self.m.shape == Shape::D2(channels, 1) && self.logs.shape == Shape::D2(channels, 1)
    }

    pub open spec fn forward_expr(self, x: Tensor, x_mask: Tensor, reverse: bool) -> (
        Tensor,
        Single,
    ) {
        let m = self.m.value_expr();
        let logs = self.logs.value_expr();
        if !reverse {
            let y = m.unsqueeze_expr(0).plus_expr(
                logs.unary_expr(UnaryOp::Exp).unsqueeze_expr(0).times_expr(x),
            );
            (
                y.times_expr(x_mask),
                Single::First(
                    logs.unsqueeze_expr(0).times_expr(x_mask).sum_dim_expr(1).sum_dim_expr(
                        2,
                    ).squeeze1_expr(),
                ),
            )
        } else {
            (
                x.minus_expr(m.unsqueeze_expr(0)).times_expr(
                    logs.unary_expr(UnaryOp::Neg).unsqueeze_expr(0).unary_expr(UnaryOp::Exp),
                ).times_expr(x_mask),
                Single::Zero,
            )
        }
    }

    /// `x` scaled and shifted within the mask, or in reverse shifted and scaled back. Forward, the
    /// sum of the scales is squeezed to a line, which there is only for masks of several rows.
    pub fn forward(&self, x: Tensor, x_mask: Tensor, reverse: bool) -> (r: (Tensor, Single))
        requires
            x.is_signal(),
            self.wf(x.at(1)),
            x_mask.covers(x.shape),
            !reverse ==> x_mask.at(0) >= 2,
        ensures
            r == self.forward_expr(x, x_mask, reverse),
            r.0.is_signal(),
            r.0.shape == x.shape,
    {
        if !reverse {
            let y = self.m.value().unsqueeze_dim(0).plus(
                self.logs.value().unary(UnaryOp::Exp).unsqueeze_dim(0).times(x),
            );
            let y = y.times(x_mask.clone());
            let summed = self.logs.value().unsqueeze_dim(0).times(x_mask).sum_dim(1).sum_dim(2);
            let logdet = summed.squeeze1();
            (y, Single::First(logdet))
        } else {
            let x = x.minus(self.m.value().unsqueeze_dim(0)).times(
                self.logs.value().unary(UnaryOp::Neg).unsqueeze_dim(0).unary(UnaryOp::Exp),
            ).times(x_mask);
            (x, Single::Zero)
        }
    }
}

/// Settings of a [`ResidualCouplingLayer`].
#[derive(Clone, Copy, PartialEq, Eq, Debug, Structural)]
pub struct ResidualCouplingLayerConfig {
    pub channels: usize,
    pub hidden_channels: usize,
    pub kernel_size: usize,
    pub dilation_rate: usize,
    pub n_layers: usize,
    pub p_dropout: Real,
    pub gin_channels: usize,
    pub mean_only: bool,
}

/// One half of the channels shifted and scaled by what the other half decides.
#[derive(Debug)]
pub struct ResidualCouplingLayer {
    pub pre: Conv1d,
    pub enc: WN,
    pub post: Conv1d,
    pub half_channels: usize,
    pub mean_only: bool,
}

impl ResidualCouplingLayerConfig {
    /// Without dropout and condition, shifting and scaling.
    pub fn new(
        channels: usize,
        hidden_channels: usize,
        kernel_size: usize,
        dilation_rate: usize,
        n_layers: usize,
    ) -> (r: ResidualCouplingLayerConfig)
        ensures
            r == (ResidualCouplingLayerConfig {
                channels,
                hidden_channels,
                kernel_size,
                dilation_rate,
                n_layers,
                p_dropout: Real { bits: 0 },
                gin_channels: 0,
                mean_only: false,
            }),
    {
        ResidualCouplingLayerConfig {
            channels,
            hidden_channels,
            kernel_size,
            dilation_rate,
            n_layers,
            p_dropout: Real::from_bits(0),
            gin_channels: 0,
            mean_only: false,
        }
    }

    pub fn with_gin_channels(self, gin_channels: usize) -> (r: ResidualCouplingLayerConfig)
        ensures
            r == (ResidualCouplingLayerConfig { gin_channels, ..self }),
    {
        ResidualCouplingLayerConfig { gin_channels, ..self }
    }

    pub fn with_mean_only(self, mean_only: bool) -> (r: ResidualCouplingLayerConfig)
        ensures
            r == (ResidualCouplingLayerConfig { mean_only, ..self }),
    {
        ResidualCouplingLayerConfig { mean_only, ..self }
    }

    pub fn with_p_dropout(self, p_dropout: Real) -> (r: ResidualCouplingLayerConfig)
        ensures
            r == (ResidualCouplingLayerConfig { p_dropout, ..self }),
    {
        ResidualCouplingLayerConfig { p_dropout, ..self }
    }

    pub open spec fn enc(self) -> WNConfig {
        WNConfig {
            hidden_channels: self.hidden_channels,
            kernel_size: self.kernel_size,
            dilation_rate: self.dilation_rate,
            n_layers: self.n_layers,
            gin_channels: self.gin_channels,
            p_dropout: self.p_dropout,
        }
    }

    pub open spec fn valid(self) -> bool {
        self.channels % 2 == 0 && self.enc().valid()
    }

    pub open spec fn half_channels(self) -> usize {
        self.channels / 2
    }

    /// The channels that decide: shifts, and unless there are only those, scales.
    pub open spec fn stats_channels(self) -> usize {
        if self.mean_only {
            self.half_channels()
        } else {
            self.channels
        }
    }

    /// Whether `module` is the layer with these settings, at a path.
    pub open spec fn describes(self, path: Path, module: ResidualCouplingLayer) -> bool {
        &&& module.pre == Conv1dConfig::usual(
            self.half_channels(),
            self.hidden_channels,
            1,
        ).built(path.field_expr("pre"))
        &&& self.enc().describes(path.field_expr("enc"), module.enc)
        &&& module.post == Conv1dConfig::usual(
            self.hidden_channels,
            self.stats_channels(),
            1,
        ).built(path.field_expr("post"))
        &&& module.half_channels == self.half_channels()
        &&& module.mean_only == self.mean_only
    }

    /// The layer with these settings, at a path.
    pub fn init(&self, path: &Path) -> (r: ResidualCouplingLayer)
        requires
            self.valid(),
        ensures
            self.describes(*path, r),
            self.dilation_rate >= 1 ==> r.wf(),
            r.channels() == self.channels,
    {
        proof {
            vstd::arithmetic::div_mod::lemma_div_basics(self.half_channels() as int);
            vstd::arithmetic::div_mod::lemma_div_basics(self.hidden_channels as int);
        }
        let half_channels: usize = self.channels / 2;
        let enc = WNConfig::new(
            self.hidden_channels,
            self.kernel_size,
            self.dilation_rate,
            self.n_layers,
        ).with_p_dropout(self.p_dropout).with_gin_channels(self.gin_channels).init(
            &path.field("enc"),
        );
        let ways: usize = if self.mean_only {
            1
        } else {
            2
        };
        ResidualCouplingLayer {
            pre: Conv1dConfig::new(half_channels, self.hidden_channels, 1).init(
                &path.field("pre"),
            ),
            enc,
            post: Conv1dConfig::new(self.hidden_channels, half_channels * ways, 1).init(
                &path.field("post"),
            ),
            half_channels,
            mean_only: self.mean_only,
        }
    }
}

impl ResidualCouplingLayer {
    /// The channels of the signals that the layer is for.
    pub open spec fn channels(self) -> int {
        2 * self.half_channels
    }

    pub open spec fn wf(self) -> bool {
        &&& self.channels() <= usize::MAX
        &&& self.pre.pointwise(self.half_channels, self.enc.hidden_channels)
        &&& self.enc.wf()
        &&& self.post.pointwise(
            self.enc.hidden_channels,
            if self.mean_only {
                self.half_channels
            } else {
                self.channels() as usize
            },
        )
    }

    /// The shift and the logarithm of the scale for the second half of `x`.
    pub open spec fn stats_expr(self, x0: Tensor, x_mask: Tensor, g: Option<Tensor>) -> (
        Tensor,
        Tensor,
    ) {
        let h = self.pre.forward_expr(x0).times_expr(x_mask);
        let h = self.enc.forward_expr(h, x_mask, g);
        let stats = self.post.forward_expr(h).times_expr(x_mask);
        if self.mean_only {
            (stats, Tensor::zeros_expr(stats.shape))
        } else {
            (
                stats.slice_expr(1, 0, self.half_channels),
                stats.slice_expr(1, self.half_channels, self.channels() as usize),
            )
        }
    }

    pub open spec fn forward_expr(
        self,
        x: Tensor,
        x_mask: Tensor,
        g: Option<Tensor>,
        reverse: bool,
    ) -> (Tensor, Single) {
        let x0 = x.slice_expr(1, 0, self.half_channels);
        let x1 = x.slice_expr(1, self.half_channels, self.channels() as usize);
        let (m, logs) = self.stats_expr(x0, x_mask, g);
        if !reverse {
            let x1 = m.plus_expr(
                x1.times_expr(logs.unary_expr(UnaryOp::Exp)).times_expr(x_mask),
            );
            (
                x0.cat_expr(x1, 1),
                Single::First(logs.sum_dim_expr(1).sum_dim_expr(2).squeeze1_expr()),
            )
        } else {
            let x1 = x1.minus_expr(m).times_expr(
                logs.unary_expr(UnaryOp::Neg).unary_expr(UnaryOp::Exp),
            ).times_expr(x_mask);
            (x0.cat_expr(x1, 1), Single::Zero)
        }
    }

    /// Whether the layer takes signals of a shape under a mask of a shape and a condition.
    pub open spec fn takes(self, x: Shape, x_mask: Shape, g: Option<Tensor>) -> bool {
        &&& x.at(1) == self.channels()
        &&& self.enc.takes_length(x.at(2))
        &&& x_mask.rank() == 3
        &&& x_mask.at(0) == 1 || x_mask.at(0) == x.at(0)
        &&& x_mask.at(1) == 1
        &&& x_mask.at(2) == 1 || x_mask.at(2) == x.at(2)
        &&& self.enc.cond_fits(g, Shape::D3(x.at(0), self.enc.hidden_channels, x.at(2)))
    }

    /// `x` with its second half shifted and scaled by what its first half decides, or in reverse
    /// scaled and shifted back. Forward, the sum of the scales is squeezed to a line, which there
    /// is only for several rows.
    pub fn forward(&self, x: Tensor, x_mask: Tensor, g: Option<Tensor>, reverse: bool) -> (r: (
        Tensor,
        Single,
    ))
        requires
            self.wf(),
            x.is_signal(),
            x_mask.is_signal(),
            self.takes(x.shape, x_mask.shape, g),
            !reverse ==> x.at(0) >= 2,
        ensures
            r == self.forward_expr(x, x_mask, g, reverse),
            r.0.is_signal(),
            r.0.shape == x.shape,
    {
        let channels: usize = x.shape.dim(1);
        let x0 = x.clone().slice(1, 0, self.half_channels);
        let x1 = x.slice(1, self.half_channels, channels);
        let h = self.pre.forward(x0.clone()).times(x_mask.clone());
        let h = self.enc.forward(h, x_mask.clone(), g);
        let stats = self.post.forward(h).times(x_mask.clone());
        let (m, logs) = if !self.mean_only {
            (
                stats.clone().slice(1, 0, self.half_channels),
                stats.slice(1, self.half_channels, channels),
            )
        } else {
            let zeros = Tensor::zeros(stats.shape);
            (stats, zeros)
        };
        if !reverse {
            let x1 = m.plus(x1.times(logs.clone().unary(UnaryOp::Exp)).times(x_mask));
            let x = x0.cat(x1, 1);
            let logdet = logs.sum_dim(1).sum_dim(2).squeeze1();
            (x, Single::First(logdet))
        } else {
            let x1 = x1.minus(m).times(logs.unary(UnaryOp::Neg).unary(UnaryOp::Exp)).times(x_mask);
            let x = x0.cat(x1, 1);
            (x, Single::Zero)
        }
    }
}

/// Settings of a [`ResidualCouplingBlock`].
#[derive(Clone, Copy, PartialEq, Eq, Debug, Structural)]
pub struct ResidualCouplingBlockConfig {
    pub channels: usize,
    pub hidden_channels: usize,
    pub kernel_size: usize,
    pub dilation_rate: usize,
    pub n_layers: usize,
    pub n_flows: usize,
    pub gin_channels: usize,
}

/// Coupling layers with flips in between.
#[derive(Debug)]
pub struct ResidualCouplingBlock {
    pub flows: Vec<ResidualCouplingBlockLayers>,
}

/// A step of a [`ResidualCouplingBlock`].
#[derive(Debug)]
pub enum ResidualCouplingBlockLayers {
    ResidualCouplingLayer(ResidualCouplingLayer),
    Flip(Flip),
}

impl ResidualCouplingBlockConfig {
    /// With four coupling layers.
    pub fn new(
        channels: usize,
        hidden_channels: usize,
        kernel_size: usize,
        dilation_rate: usize,
        n_layers: usize,
        gin_channels: usize,
    ) -> (r: ResidualCouplingBlockConfig)
        ensures
            r == (ResidualCouplingBlockConfig {
                channels,
                hidden_channels,
                kernel_size,
                dilation_rate,
                n_layers,
                n_flows: 4,
                gin_channels,
            }),
    {
        ResidualCouplingBlockConfig {
            channels,
            hidden_channels,
            kernel_size,
            dilation_rate,
            n_layers,
            n_flows: 4,
            gin_channels,
        }
    }

    pub fn with_n_flows(self, n_flows: usize) -> (r: ResidualCouplingBlockConfig)
        ensures
            r == (ResidualCouplingBlockConfig { n_flows, ..self }),
    {
        ResidualCouplingBlockConfig { n_flows, ..self }
    }

    /// The settings of every coupling layer.
    pub open spec fn layer(self) -> ResidualCouplingLayerConfig {
        ResidualCouplingLayerConfig {
            channels: self.channels,
            hidden_channels: self.hidden_channels,
            kernel_size: self.kernel_size,
            dilation_rate: self.dilation_rate,
            n_layers: self.n_layers,
            p_dropout: Real { bits: 0 },
            gin_channels: self.gin_channels,
            mean_only: true,
        }
    }

    pub open spec fn valid(self) -> bool {
        self.n_flows >= 1 ==> self.layer().valid() && 2 * self.n_flows <= usize::MAX
    }

    /// Whether `layer` is step `i`: a coupling layer or, every second time, a flip.
    pub open spec fn describes_step(
        self,
        i: int,
        path: Path,
        flows: Seq<ResidualCouplingBlockLayers>,
    ) -> bool {
        if i % 2 == 0 {
            &&& flows[i] matches ResidualCouplingBlockLayers::ResidualCouplingLayer(layer)
            &&& self.layer().describes(path.field_expr("flows").index_expr(i as usize), layer)
        } else {
            flows[i] is Flip
        }
    }

    /// Whether `module` is the block with these settings, at a path.
    pub open spec fn describes(self, path: Path, module: ResidualCouplingBlock) -> bool {
        &&& module.flows.len() == 2 * self.n_flows
        &&& forall|i: int|
            0 <= i < 2 * self.n_flows ==> #[trigger] self.describes_step(i, path, module.flows@)
    }

    /// The block with these settings, at a path.
    pub fn init(&self, path: &Path) -> (r: ResidualCouplingBlock)
        requires
            self.valid(),
        ensures
            self.describes(*path, r),
            self.dilation_rate >= 1 ==> r.wf(self.channels),
    {
        let flows_path = path.field("flows");
        let mut flows: Vec<ResidualCouplingBlockLayers> = Vec::new();
        let mut i: usize = 0;
        while i < self.n_flows
            invariant
                i <= self.n_flows,
                self.valid(),
                flows_path == path.field_expr("flows"),
                flows.len() == 2 * i,
                forall|a: int| 0 <= a < 2 * i ==> #[trigger] self.describes_step(a, *path, flows@),
                self.dilation_rate >= 1 ==> forall|a: int|
                    0 <= a < 2 * i ==> (#[trigger] flows@[a]).wf(self.channels),
            decreases self.n_flows - i,
        {
            let ghost before = flows@;
            flows.push(
                ResidualCouplingBlockLayers::ResidualCouplingLayer(
                    ResidualCouplingLayerConfig::new(
                        self.channels,
                        self.hidden_channels,
                        self.kernel_size,
                        self.dilation_rate,
                        self.n_layers,
                    ).with_gin_channels(self.gin_channels).with_mean_only(true).init(
                        &flows_path.index(2 * i),
                    ),
                ),
            );
            flows.push(ResidualCouplingBlockLayers::Flip(Flip {  }));
            proof {
                assert forall|a: int| 0 <= a < 2 * (i + 1) implies #[trigger] self.describes_step(
                    a,
                    *path,
                    flows@,
                ) by {
                    if a < 2 * i {
                        assert(self.describes_step(a, *path, before));
                        assert(flows@[a] == before[a]);
                    }
                }
            }
            i += 1;
        }
        ResidualCouplingBlock { flows }
    }
}

impl ResidualCouplingBlockLayers {
    pub open spec fn wf(self, channels: usize) -> bool {
        match self {
            ResidualCouplingBlockLayers::ResidualCouplingLayer(layer) => layer.wf()
                && layer.channels() == channels,
            ResidualCouplingBlockLayers::Flip(_) => true,
        }
    }

    /// Whether the step takes signals of a shape under a mask of a shape and a condition.
    pub open spec fn takes(self, x: Shape, x_mask: Shape, g: Option<Tensor>) -> bool {
        match self {
            ResidualCouplingBlockLayers::ResidualCouplingLayer(layer) => layer.takes(
                x,
                x_mask,
                g,
            ),
            ResidualCouplingBlockLayers::Flip(_) => true,
        }
    }

    pub open spec fn forward_expr(
        self,
        x: Tensor,
        x_mask: Tensor,
        g: Option<Tensor>,
        reverse: bool,
    ) -> (Tensor, Single) {
        match self {
            ResidualCouplingBlockLayers::ResidualCouplingLayer(layer) => layer.forward_expr(
                x,
                x_mask,
                g,
                reverse,
            ),
            ResidualCouplingBlockLayers::Flip(_) => (x.flip_expr(1), Single::Zero),
        }
    }

    /// What the step makes of `x`.
    pub fn forward(&self, x: Tensor, x_mask: Tensor, g: Option<Tensor>, reverse: bool) -> (r: (
        Tensor,
        Single,
    ))
        requires
            x.is_signal(),
            x_mask.is_signal(),
            self.wf(x.at(1)),
            self.takes(x.shape, x_mask.shape, g),
            self is ResidualCouplingLayer && !reverse ==> x.at(0) >= 2,
        ensures
            r == self.forward_expr(x, x_mask, g, reverse),
            r.0.is_signal(),
            r.0.shape == x.shape,
    {
        match self {
            ResidualCouplingBlockLayers::ResidualCouplingLayer(layer) => layer.forward(
                x,
                x_mask,
                g,
                reverse,
            ),
            ResidualCouplingBlockLayers::Flip(flip) => flip.forward(x, reverse),
        }
    }
}

/// Another handle on the tensor, where there is one.
pub fn cloned_option(g: &Option<Tensor>) -> (r: Option<Tensor>)
    ensures
        r == *g,
{
    match g {
        Some(g) => Some(g.clone()),
        None => None,
    }
}

impl ResidualCouplingBlock {
    pub open spec fn wf(self, channels: usize) -> bool {
        forall|i: int| 0 <= i < self.flows.len() ==> (#[trigger] self.flows@[i]).wf(channels)
    }

    /// Whether every step takes signals of a shape under a mask of a shape and a condition.
    pub open spec fn takes(self, x: Shape, x_mask: Shape, g: Option<Tensor>) -> bool {
        forall|i: int|
            0 <= i < self.flows.len() ==> (#[trigger] self.flows@[i]).takes(x, x_mask, g)
    }

    /// Step `i` of the way: from the first, or in reverse from the last.
    pub open spec fn step(self, i: int, reverse: bool) -> ResidualCouplingBlockLayers {
        if reverse {
            self.flows@[self.flows.len() - 1 - i]
        } else {
            self.flows@[i]
        }
    }

    /// A signal after the first `n` steps of the way.
    pub open spec fn after_expr(
        self,
        n: nat,
        x: Tensor,
        x_mask: Tensor,
        g: Option<Tensor>,
        reverse: bool,
    ) -> Tensor
        decreases n,
    {
        if n == 0 {
            x
        } else {
            self.step(n - 1, reverse).forward_expr(
                self.after_expr((n - 1) as nat, x, x_mask, g, reverse),
                x_mask,
                g,
                reverse,
            ).0
        }
    }

    pub open spec fn forward_expr(
        self,
        x: Tensor,
        x_mask: Tensor,
        g: Option<Tensor>,
        reverse: bool,
    ) -> Tensor {
        self.after_expr(self.flows.len() as nat, x, x_mask, g, reverse)
    }

    /// What the steps make of `x`, one after the other, or in reverse from the last to the first.
    pub fn forward(&self, x: Tensor, x_mask: Tensor, g: Option<Tensor>, reverse: bool) -> (r:
        Tensor)
        requires
            x.is_signal(),
            x_mask.is_signal(),
            self.wf(x.at(1)),
            self.takes(x.shape, x_mask.shape, g),
            !reverse ==> x.at(0) >= 2,
        ensures
            r == self.forward_expr(x, x_mask, g, reverse),
            r.is_signal(),
            r.shape == x.shape,
    {
        let ghost start = x;
        let mut x = x;
        let n: usize = self.flows.len();
        let mut i: usize = 0;
        while i < n
            invariant
                i <= n,
                n == self.flows.len(),
                self.wf(start.at(1)),
                x_mask.is_signal(),
                self.takes(start.shape, x_mask.shape, g),
                !reverse ==> start.at(0) >= 2,
                x.is_signal(),
                x.shape == start.shape,
                x == self.after_expr(i as nat, start, x_mask, g, reverse),
            decreases n - i,
        {
            let at: usize = if reverse {
                n - 1 - i
            } else {
                i
            };
            let (t_x, _) = self.flows[at].forward(x, x_mask.clone(), cloned_option(&g), reverse);
            x = t_x;
            i += 1;
        }
        x
    }
}

impl ResidualCouplingBlock {
    /// Whether every step takes one row of signals of a number of channels and a length, under a
    /// mask of as many positions and without a condition.
    pub fn accepts_length(&self, channels: usize, length: usize) -> (r: bool)
        requires
            self.wf(channels),
        ensures
            r == self.takes(
                Shape::D3(1, channels, length),
                Shape::D3(1, 1, length),
                None,
            ),
    {
        let ghost x = Shape::D3(1, channels, length);
        let ghost x_mask = Shape::D3(1, 1, length);
        let mut i: usize = 0;
        while i < self.flows.len()
            invariant
                i <= self.flows.len(),
                self.wf(channels),
                x == Shape::D3(1, channels, length),
                x_mask == Shape::D3(1, 1, length),
                forall|a: int|
                    0 <= a < i ==> (#[trigger] self.flows@[a]).takes(x, x_mask, None),
            decreases self.flows.len() - i,
        {
            assert(self.flows@[i as int].wf(channels));
            let accepted = match &self.flows[i] {
                ResidualCouplingBlockLayers::ResidualCouplingLayer(layer) => {
                    layer.enc.accepts_length(length)
                },
                ResidualCouplingBlockLayers::Flip(_) => true,
            };
            if !accepted {
                proof {
                    let step = self.flows@[i as int];
                    assert(!step.takes(x, x_mask, None));
                    assert(!self.takes(x, x_mask, None));
                }
                return false;
            }
            i += 1;
        }
        true
    }
}

} // verus!

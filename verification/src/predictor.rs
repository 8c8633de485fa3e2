//! The predictor of how many frames each phoneme lasts.

use crate::flow::{ElementwiseAffine, ElementwiseAffineConfig, Flip, Log};
use crate::nn::{Conv1d, Conv1dConfig, Dropout, LayerNorm};
use crate::number::{Real, Real32, Scalar};
use crate::param::Path;
use crate::shape::Shape;
use crate::spline::piecewise_rational_quadratic_transform;
use crate::tensor::{Noise, ScalarOp, Single, Tensor};
use crate::wavenet::{DDSConv, DDSConvConfig};
use vstd::prelude::*;

verus! {

/// 5.0
pub const TAIL_BOUND: u64 = 0x4014_0000_0000_0000;

/// Settings of a [`ConvFlow`].
#[derive(Clone, Copy, PartialEq, Eq, Debug, Structural)]
pub struct ConvFlowConfig {
    pub in_channels: usize,
    pub filter_channels: usize,
    pub kernel_size: usize,
    pub n_layers: usize,
    pub num_bins: usize,
    pub tail_bound: Real,
}

/// One half of the channels passed through splines that the other half decides.
#[derive(Debug)]
pub struct ConvFlow {
    pub pre: Conv1d,
    pub convs: DDSConv,
    pub proj: Conv1d,
    pub half_channels: usize,
    pub num_bins: usize,
    pub filter_channels: usize,
    pub tail_bound: Real,
}

impl ConvFlowConfig {
    /// With ten bins between minus five and five.
    pub fn new(
        in_channels: usize,
        filter_channels: usize,
        kernel_size: usize,
        n_layers: usize,
    ) -> (r: ConvFlowConfig)
        ensures
            r == (ConvFlowConfig {
                in_channels,
                filter_channels,
                kernel_size,
                n_layers,
                num_bins: 10,
                tail_bound: Real { bits: TAIL_BOUND },
            }),
    {
        ConvFlowConfig {
            in_channels,
            filter_channels,
            kernel_size,
            n_layers,
            num_bins: 10,
            tail_bound: Real::from_bits(TAIL_BOUND),
        }
    }

    pub fn with_num_bins(self, num_bins: usize) -> (r: ConvFlowConfig)
        ensures
            r == (ConvFlowConfig { num_bins, ..self }),
    {
        ConvFlowConfig { num_bins, ..self }
    }

    pub fn with_tail_bound(self, tail_bound: Real) -> (r: ConvFlowConfig)
        ensures
            r == (ConvFlowConfig { tail_bound, ..self }),
    {
        ConvFlowConfig { tail_bound, ..self }
    }

    pub open spec fn half_channels(self) -> usize {
        self.in_channels / 2
    }

    pub open spec fn convs(self) -> DDSConvConfig {
        DDSConvConfig {
            channels: self.filter_channels,
            kernel_size: self.kernel_size,
            n_layers: self.n_layers,
            p_dropout: Real { bits: 0 },
        }
    }

    /// The channels that decide: widths, heights and inner slopes for each spline.
    pub open spec fn spline_channels(self) -> int {
        self.half_channels() * (self.num_bins * 3 - 1)
    }

    pub open spec fn valid(self) -> bool {
        &&& self.num_bins >= 1
        &&& self.num_bins * 3 <= usize::MAX
        &&& self.spline_channels() <= usize::MAX
        &&& self.convs().valid()
    }

    /// Whether `module` is the layer with these settings, at a path.
    pub open spec fn describes(self, path: Path, module: ConvFlow) -> bool {
        &&& module.pre == Conv1dConfig::usual(
            self.half_channels(),
            self.filter_channels,
            1,
        ).built(path.field_expr("pre"))
        &&& self.convs().describes(path.field_expr("convs"), module.convs)
        &&& module.proj == Conv1dConfig::usual(
            self.filter_channels,
            self.spline_channels() as usize,
            1,
        ).built(path.field_expr("proj"))
        &&& module.half_channels == self.half_channels()
        &&& module.num_bins == self.num_bins
        &&& module.filter_channels == self.filter_channels
        &&& module.tail_bound == self.tail_bound
    }

    /// The layer with these settings, at a path.
    pub fn init(&self, path: &Path) -> (r: ConvFlow)
        requires
            self.valid(),
        ensures
            self.describes(*path, r),
            self.n_layers == 0 || self.kernel_size % 2 == 1 ==> r.wf(),
            r.half_channels == self.half_channels(),
            r.filter_channels == self.filter_channels,
            r.num_bins == self.num_bins,
    {
        proof {
            vstd::arithmetic::div_mod::lemma_div_basics(self.half_channels() as int);
            vstd::arithmetic::div_mod::lemma_div_basics(self.filter_channels as int);
            assert(self.spline_channels() >= 0) by (nonlinear_arith)
                requires
                    self.num_bins >= 1,
                    self.spline_channels() == self.half_channels() * (self.num_bins * 3 - 1),
            ;
        }
        let half_channels: usize = self.in_channels / 2;
        ConvFlow {
            pre: Conv1dConfig::new(half_channels, self.filter_channels, 1).init(
                &path.field("pre"),
            ),
            convs: DDSConvConfig::new(
                self.filter_channels,
                self.kernel_size,
                self.n_layers,
            ).with_p_dropout(Real::from_bits(0)).init(&path.field("convs")),
            proj: Conv1dConfig::new(
                self.filter_channels,
                half_channels * (self.num_bins * 3 - 1),
                1,
            ).init(&path.field("proj")),
            half_channels,
            num_bins: self.num_bins,
            filter_channels: self.filter_channels,
            tail_bound: self.tail_bound,
        }
    }
}

impl ConvFlow {
    pub open spec fn wf(self) -> bool {
        &&& self.num_bins >= 1
        &&& self.num_bins * 3 <= usize::MAX
        &&& self.half_channels * (self.num_bins * 3 - 1) <= usize::MAX
        &&& self.pre.pointwise(self.half_channels, self.filter_channels)
        &&& self.convs.wf(self.filter_channels)
        &&& self.proj.pointwise(
            self.filter_channels,
            (self.half_channels * (self.num_bins * 3 - 1)) as usize,
        )
    }

    /// The widths, heights and inner slopes of the splines that `x0` decides.
    pub open spec fn splines_expr(self, x0: Tensor, x_mask: Tensor, g: Option<Tensor>) -> (
        Tensor,
        Tensor,
        Tensor,
    ) {
        let h = self.pre.forward_expr(x0);
        let h = self.convs.forward_expr(h, x_mask, g);
        let h = self.proj.forward_expr(h).times_expr(x_mask);
        let h = h.reshape_expr(
            Shape::D4(x0.at(0), x0.at(1), (self.num_bins * 3 - 1) as usize, x0.at(2)),
        ).swap_dims_expr(2, 3);
        let scale = Scalar::Count(self.filter_channels).sqrt_expr();
        let doubled = (2 * self.num_bins) as usize;
        (
            h.slice_expr(3, 0, self.num_bins).scalar_expr(ScalarOp::Div, scale),
            h.slice_expr(3, self.num_bins, doubled).scalar_expr(ScalarOp::Div, scale),
            h.slice_expr(3, doubled, h.at(3)),
        )
    }

    pub open spec fn forward_expr(
        self,
        x: Tensor,
        x_mask: Tensor,
        g: Option<Tensor>,
        reverse: bool,
    ) -> (Tensor, Single) {
        let half = self.half_channels;
        let x0 = x.slice_expr(1, 0, half);
        let x1 = x.slice_expr(1, half, (2 * half) as usize);
        let (widths, heights, derivatives) = self.splines_expr(x0, x_mask, g);
        let (x1, logabsdet) = crate::spline::transform_expr(
            x1,
            widths,
            heights,
            derivatives,
            reverse,
            Some("linear"),
            self.tail_bound,
        );
        (
            x0.cat_expr(x1, 1).times_expr(x_mask),
            if !reverse {
                Single::First(
                    logabsdet.times_expr(x_mask).sum_dim_expr(1).sum_dim_expr(2),
                )
            } else {
                Single::Zero
            },
        )
    }

    /// Whether the layer takes signals of a shape under a mask and a condition. The splines are
    /// squeezed to rows, which leaves room for one row and channel in each half.
    pub open spec fn takes(self, x: Shape, x_mask: Tensor, g: Option<Tensor>) -> bool {
        &&& self.half_channels == 1
        &&& self.num_bins >= 2
        &&& x == Shape::D3(1, 2, x.at(2))
        &&& x.at(2) >= 2
        &&& self.convs.takes_length(x.at(2))
        &&& x_mask.is_signal()
        &&& x_mask.at(0) == 1
        &&& x_mask.at(1) == 1
        &&& x_mask.at(2) == 1 || x_mask.at(2) == x.at(2)
        &&& g matches Some(g) ==> g.covers(Shape::D3(1, self.filter_channels, x.at(2)))
    }

    /// `x` with its second half passed through the splines that its first half decides, or in
    /// reverse through their inverses.
    pub fn forward(&self, x: Tensor, x_mask: Tensor, g: Option<Tensor>, reverse: bool) -> (r: (
        Tensor,
        Single,
    ))
        requires
            self.wf(),
            x.is_signal(),
            self.takes(x.shape, x_mask, g),
        ensures
            r == self.forward_expr(x, x_mask, g, reverse),
            r.0.is_signal(),
            r.0.shape == x.shape,
    {
        let x0 = x.clone().slice(1, 0, self.half_channels);
        let x1 = x.slice(1, self.half_channels, 2 * self.half_channels);
        let h = self.pre.forward(x0.clone());
        let h = self.convs.forward(h, x_mask.clone(), g);
        let h = self.proj.forward(h).times(x_mask.clone());
        let b: usize = x0.shape.dim(0);
        let c: usize = x0.shape.dim(1);
        let t: usize = x0.shape.dim(2);
        let parts: usize = self.num_bins * 3 - 1;
        proof {
            assert(1 * parts == parts);
            assert(1 * 1 * parts * t == 1 * parts * t) by (nonlinear_arith);
        }
        let h = h.reshape(Shape::D4(b, c, parts, t)).swap_dims(2, 3);
        let unnormalized_widths = h.clone().slice(3, 0, self.num_bins).scalar(
            ScalarOp::Div,
            Scalar::Count(self.filter_channels).sqrt(),
        );
        let unnormalized_heights = h.clone().slice(3, self.num_bins, 2 * self.num_bins).scalar(
            ScalarOp::Div,
            Scalar::Count(self.filter_channels).sqrt(),
        );
        let unnormalized_derivatives = h.slice(3, 2 * self.num_bins, parts);
        let (x1, logabsdet) = piecewise_rational_quadratic_transform(
            x1,
            unnormalized_widths,
            unnormalized_heights,
            unnormalized_derivatives,
            reverse,
            Some("linear"),
            self.tail_bound,
        );
        let x = x0.cat(x1, 1).times(x_mask.clone());
        if !reverse {
            let logdet = logabsdet.times(x_mask).sum_dim(1).sum_dim(2);
            (x, Single::First(logdet))
        } else {
            (x, Single::Zero)
        }
    }
}

/// A step of a [`StochasticDurationPredictor`].
#[derive(Debug)]
pub enum StochasticDurationPredictorLayers {
    ElementwiseAffine(ElementwiseAffine),
    ConvFlow(ConvFlow),
    Flip(Flip),
}

impl StochasticDurationPredictorLayers {
    /// Whether the step is for signals of two channels under conditions of some channels.
    pub open spec fn wf(self, cond_channels: usize) -> bool {
        match self {
            StochasticDurationPredictorLayers::ElementwiseAffine(layer) => layer.wf(2),
            StochasticDurationPredictorLayers::ConvFlow(layer) => {
                &&& layer.wf()
                &&& layer.half_channels == 1
                &&& layer.num_bins >= 2
                &&& layer.filter_channels == cond_channels
            },
            StochasticDurationPredictorLayers::Flip(_) => true,
        }
    }

    /// Whether the step takes signals of a shape under a mask and a condition.
    pub open spec fn takes(self, x: Shape, x_mask: Tensor, g: Option<Tensor>) -> bool {
        match self {
            StochasticDurationPredictorLayers::ElementwiseAffine(layer) => {
                &&& layer.wf(x.at(1))
                &&& x_mask.covers(x)
            },
            StochasticDurationPredictorLayers::ConvFlow(layer) => layer.wf() && layer.takes(
                x,
                x_mask,
                g,
            ),
            StochasticDurationPredictorLayers::Flip(_) => true,
        }
    }

    pub open spec fn forward_expr(
        self,
        x: Tensor,
        x_mask: Tensor,
        g: Option<Tensor>,
        reverse: bool,
    ) -> (Tensor, Single) {
        match self {
            StochasticDurationPredictorLayers::ElementwiseAffine(layer) => layer.forward_expr(
                x,
                x_mask,
                reverse,
            ),
            StochasticDurationPredictorLayers::ConvFlow(layer) => layer.forward_expr(
                x,
                x_mask,
                g,
                reverse,
            ),
            StochasticDurationPredictorLayers::Flip(_) => (x.flip_expr(1), Single::Zero),
        }
    }

    /// What the step makes of `x`.
    pub fn forward(&self, x: Tensor, x_mask: Tensor, g: Option<Tensor>, reverse: bool) -> (r: (
        Tensor,
        Single,
    ))
        requires
            x.is_signal(),
            self.takes(x.shape, x_mask, g),
            self is ElementwiseAffine && !reverse ==> x_mask.at(0) >= 2,
        ensures
            r == self.forward_expr(x, x_mask, g, reverse),
            r.0.is_signal(),
            r.0.shape == x.shape,
    {
        match self {
            StochasticDurationPredictorLayers::ElementwiseAffine(layer) => layer.forward(
                x,
                x_mask,
                reverse,
            ),
            StochasticDurationPredictorLayers::ConvFlow(layer) => layer.forward(
                x,
                x_mask,
                g,
                reverse,
            ),
            StochasticDurationPredictorLayers::Flip(flip) => flip.forward(x, reverse),
        }
    }
}

/// Settings of a [`StochasticDurationPredictor`].
#[derive(Clone, Copy, PartialEq, Eq, Debug, Structural)]
pub struct StochasticDurationPredictorConfig {
    pub in_channels: usize,
    pub filter_channels: usize,
    pub kernel_size: usize,
    pub p_dropout: Real,
    pub n_flows: usize,
    pub gin_channels: usize,
}

/// Turns noise into durations by flows under the encoding of the phonemes.
#[derive(Debug)]
pub struct StochasticDurationPredictor {
    pub log_flow: Log,
    pub flows: Vec<StochasticDurationPredictorLayers>,
    pub post_pre: Conv1d,
    pub post_proj: Conv1d,
    pub post_convs: DDSConv,
    pub post_flows: Vec<StochasticDurationPredictorLayers>,
    pub pre: Conv1d,
    pub proj: Conv1d,
    pub convs: DDSConv,
    pub cond: Option<Conv1d>,
}

impl StochasticDurationPredictorConfig {
    pub fn new(
        in_channels: usize,
        filter_channels: usize,
        kernel_size: usize,
        p_dropout: Real,
        n_flows: usize,
        gin_channels: usize,
    ) -> (r: StochasticDurationPredictorConfig)
        ensures
            r == (StochasticDurationPredictorConfig {
                in_channels,
                filter_channels,
                kernel_size,
                p_dropout,
                n_flows,
                gin_channels,
            }),
    {
        StochasticDurationPredictorConfig {
            in_channels,
            filter_channels,
            kernel_size,
            p_dropout,
            n_flows,
            gin_channels,
        }
    }

    /// The settings of every spline layer.
    pub open spec fn conv_flow(self) -> ConvFlowConfig {
        ConvFlowConfig {
            in_channels: 2,
            filter_channels: self.filter_channels,
            kernel_size: self.kernel_size,
            n_layers: 3,
            num_bins: 10,
            tail_bound: Real { bits: TAIL_BOUND },
        }
    }

    /// The settings of the convolutions over the encoding.
    pub open spec fn convs(self) -> DDSConvConfig {
        DDSConvConfig {
            channels: self.filter_channels,
            kernel_size: self.kernel_size,
            n_layers: 3,
            p_dropout: self.p_dropout,
        }
    }

    pub open spec fn valid(self) -> bool {
        &&& self.conv_flow().valid()
        &&& self.convs().valid()
        &&& 2 * self.n_flows + 1 <= usize::MAX
    }

    /// Whether `flows` begins with a shift and scale, and step `i` after it is a spline layer or,
    /// every second time, a flip.
    pub open spec fn describes_step(
        self,
        i: int,
        path: Path,
        flows: Seq<StochasticDurationPredictorLayers>,
    ) -> bool {
        let at = path.index_expr(i as usize);
        if i == 0 {
            flows[i] == StochasticDurationPredictorLayers::ElementwiseAffine(
                ElementwiseAffineConfig { channels: 2 }.built(at),
            )
        } else if i % 2 == 1 {
            &&& flows[i] matches StochasticDurationPredictorLayers::ConvFlow(layer)
            &&& self.conv_flow().describes(at, layer)
        } else {
            flows[i] is Flip
        }
    }

    /// Whether `flows` are `n` spline layers between a shift and scale and flips.
    pub open spec fn describes_flows(
        self,
        n: usize,
        path: Path,
        flows: Seq<StochasticDurationPredictorLayers>,
    ) -> bool {
        &&& flows.len() == 2 * n + 1
        &&& forall|i: int| 0 <= i < 2 * n + 1 ==> #[trigger] self.describes_step(i, path, flows)
    }

    /// Whether `module` is the predictor with these settings, at a path.
    pub open spec fn describes(self, path: Path, module: StochasticDurationPredictor) -> bool {
        let wide = Conv1dConfig::usual(self.filter_channels, self.filter_channels, 1);
        &&& self.describes_flows(self.n_flows, path.field_expr("flows"), module.flows@)
        &&& module.post_pre == Conv1dConfig::usual(1, self.filter_channels, 1).built(
            path.field_expr("post_pre"),
        )
        &&& module.post_proj == wide.built(path.field_expr("post_proj"))
        &&& self.convs().describes(path.field_expr("post_convs"), module.post_convs)
        &&& self.describes_flows(4, path.field_expr("post_flows"), module.post_flows@)
        &&& module.pre == Conv1dConfig::usual(self.in_channels, self.filter_channels, 1).built(
            path.field_expr("pre"),
        )
        &&& module.proj == wide.built(path.field_expr("proj"))
        &&& self.convs().describes(path.field_expr("convs"), module.convs)
        &&& module.cond == if self.gin_channels != 0 {
            Some(
                Conv1dConfig::usual(self.gin_channels, self.filter_channels, 1).built(
                    path.field_expr("cond"),
                ),
            )
        } else {
            None
        }
    }

    fn make_flows(&self, n: usize, path: &Path) -> (r: Vec<StochasticDurationPredictorLayers>)
        requires
            self.valid(),
            2 * n + 1 <= usize::MAX,
        ensures
            self.describes_flows(n, *path, r@),
            self.kernel_size % 2 == 1 ==> forall|i: int|
                0 <= i < r.len() ==> (#[trigger] r@[i]).wf(self.filter_channels),
    {
        let mut flows: Vec<StochasticDurationPredictorLayers> = Vec::new();
        flows.push(
            StochasticDurationPredictorLayers::ElementwiseAffine(
                ElementwiseAffineConfig::new(2).init(&path.index(0)),
            ),
        );
        let mut i: usize = 0;
        while i < n
            invariant
                i <= n,
                2 * n + 1 <= usize::MAX,
                self.valid(),
                flows.len() == 2 * i + 1,
                forall|a: int|
                    0 <= a < 2 * i + 1 ==> #[trigger] self.describes_step(a, *path, flows@),
                self.kernel_size % 2 == 1 ==> forall|a: int|
                    0 <= a < flows.len() ==> (#[trigger] flows@[a]).wf(self.filter_channels),
            decreases n - i,
        {
            let ghost before = flows@;
            flows.push(
                StochasticDurationPredictorLayers::ConvFlow(
                    ConvFlowConfig::new(2, self.filter_channels, self.kernel_size, 3).init(
                        &path.index(2 * i + 1),
                    ),
                ),
            );
            flows.push(StochasticDurationPredictorLayers::Flip(Flip {  }));
            proof {
                assert forall|a: int| 0 <= a < 2 * (i + 1) + 1 implies #[trigger]
                self.describes_step(a, *path, flows@) by {
                    if a < 2 * i + 1 {
                        assert(self.describes_step(a, *path, before));
                        assert(flows@[a] == before[a]);
                    }
                }
            }
            i += 1;
        }
        flows
    }

    /// The predictor with these settings, at a path.
    pub fn init(&self, path: &Path) -> (r: StochasticDurationPredictor)
        requires
            self.valid(),
        ensures
            self.describes(*path, r),
            self.kernel_size % 2 == 1 && self.n_flows >= 1 ==> r.wf(self.in_channels),
            r.filter_channels() == self.filter_channels,
    {
        proof {
            Conv1dConfig::lemma_pointwise(1, self.filter_channels);
            Conv1dConfig::lemma_pointwise(self.in_channels, self.filter_channels);
            Conv1dConfig::lemma_pointwise(self.gin_channels, self.filter_channels);
            Conv1dConfig::lemma_pointwise(self.filter_channels, self.filter_channels);
            vstd::arithmetic::div_mod::lemma_div_basics(1);
            vstd::arithmetic::div_mod::lemma_div_basics(self.in_channels as int);
            vstd::arithmetic::div_mod::lemma_div_basics(self.gin_channels as int);
            vstd::arithmetic::div_mod::lemma_div_basics(self.filter_channels as int);
        }
        StochasticDurationPredictor {
            log_flow: Log {  },
            flows: self.make_flows(self.n_flows, &path.field("flows")),
            post_pre: Conv1dConfig::new(1, self.filter_channels, 1).init(&path.field("post_pre")),
            post_proj: Conv1dConfig::new(self.filter_channels, self.filter_channels, 1).init(
                &path.field("post_proj"),
            ),
            post_convs: DDSConvConfig::new(
                self.filter_channels,
                self.kernel_size,
                3,
            ).with_p_dropout(self.p_dropout).init(&path.field("post_convs")),
            post_flows: self.make_flows(4, &path.field("post_flows")),
            pre: Conv1dConfig::new(self.in_channels, self.filter_channels, 1).init(
                &path.field("pre"),
            ),
            proj: Conv1dConfig::new(self.filter_channels, self.filter_channels, 1).init(
                &path.field("proj"),
            ),
            convs: DDSConvConfig::new(self.filter_channels, self.kernel_size, 3).with_p_dropout(
                self.p_dropout,
            ).init(&path.field("convs")),
            cond: if self.gin_channels != 0 {
                Some(
                    Conv1dConfig::new(self.gin_channels, self.filter_channels, 1).init(
                        &path.field("cond"),
                    ),
                )
            } else {
                None
            },
        }
    }
}

impl StochasticDurationPredictor {
    /// The channels that the encoding is brought to.
    pub open spec fn filter_channels(self) -> usize {
        self.pre.channels_out()
    }

    pub open spec fn wf(self, in_channels: usize) -> bool {
        let filter = self.filter_channels();
        &&& self.pre.pointwise(in_channels, filter)
        &&& self.convs.wf(filter)
        &&& self.proj.pointwise(filter, filter)
        &&& self.flows.len() >= 2
        &&& forall|i: int| 0 <= i < self.flows.len() ==> (#[trigger] self.flows@[i]).wf(filter)
    }

    /// Whether step `i` of the list can be applied to `rows` signals of `length` positions. The
    /// second is not applied; of the others, spline layers take one signal of several positions.
    pub open spec fn step_takes(self, i: int, rows: usize, length: usize) -> bool {
        self.flows@[i] matches StochasticDurationPredictorLayers::ConvFlow(layer) ==> i == 1 || (
        rows == 1 && length >= 2 && layer.convs.takes_length(length))
    }

    /// Whether the predictor can be applied to `rows` signals of `length` positions.
    pub open spec fn takes(self, rows: usize, length: usize) -> bool {
        &&& self.convs.takes_length(length)
        &&& forall|i: int|
            0 <= i < self.flows.len() ==> #[trigger] self.step_takes(i, rows, length)
    }

    /// The encoding of the phonemes that the steps depend on.
    pub open spec fn condition_expr(self, x: Tensor, x_mask: Tensor, g: Option<Tensor>) -> Tensor {
        let x = DDSConv::conditioned_expr(self.pre.forward_expr(x), g);
        self.proj.forward_expr(self.convs.forward_expr(x, x_mask, g)).times_expr(x_mask)
    }

    /// Step `i` from noise to durations: the steps from the last to the first, of which the second
    /// is left out.
    pub open spec fn step(self, i: int) -> StochasticDurationPredictorLayers {
        if i < self.flows.len() - 2 {
            self.flows@[self.flows.len() - 1 - i]
        } else {
            self.flows@[0]
        }
    }

    /// Noise after the first `n` steps.
    pub open spec fn after_expr(self, n: nat, z: Tensor, x_mask: Tensor, x: Tensor) -> Tensor
        decreases n,
    {
        if n == 0 {
            z
        } else {
            self.step(n - 1).forward_expr(
                self.after_expr((n - 1) as nat, z, x_mask, x),
                x_mask,
                Some(x),
                true,
            ).0
        }
    }

    pub open spec fn forward_expr(
        self,
        x: Tensor,
        x_mask: Tensor,
        g: Option<Tensor>,
        noise_scale: Real,
    ) -> Tensor {
        let x = self.condition_expr(x, x_mask, g);
        let z = Tensor::noise_expr(
            Noise::Duration,
            Shape::D3(x.at(0), 2, x.at(2)),
        ).scalar_expr(ScalarOp::Mul, Scalar::Literal(noise_scale));
        self.after_expr((self.flows.len() - 1) as nat, z, x_mask, x).slice_expr(1, 0, 1)
    }

    /// The logarithms of the durations of the phonemes encoded in `x`, from noise of a scale.
    ///
    /// This is the way in reverse, from noise to durations; the way from durations `w` to noise is
    /// not for any input, since its shift and scale needs several rows and its splines take one.
    pub fn forward(
        &self,
        x: Tensor,
        x_mask: Tensor,
        w: Option<Tensor>,
        g: Option<Tensor>,
        reverse: bool,
        noise_scale: Real,
    ) -> (r: Tensor)
        requires
            reverse,
            x.is_signal(),
            self.wf(x.at(1)),
            self.takes(x.at(0), x.at(2)),
            x_mask.is_signal(),
            x_mask.at(0) == 1 || x_mask.at(0) == x.at(0),
            x_mask.at(1) == 1,
            x_mask.at(2) == 1 || x_mask.at(2) == x.at(2),
            g matches Some(g) ==> g.covers(Shape::D3(x.at(0), self.filter_channels(), x.at(2))),
        ensures
            r == self.forward_expr(x, x_mask, g, noise_scale),
            r.is_signal(),
            r.shape == Shape::D3(x.at(0), 1, x.at(2)),
    {
        let x = self.pre.forward(x);
        let x = match &g {
            Some(g) => x.plus(g.clone()),
            None => x,
        };
        let x = self.convs.forward(x, x_mask.clone(), g);
        let x = self.proj.forward(x).times(x_mask.clone());
        let b: usize = x.shape.dim(0);
        let t: usize = x.shape.dim(2);
        let mut z = Tensor::noise(Noise::Duration, Shape::D3(b, 2, t)).scalar(
            ScalarOp::Mul,
            Scalar::Literal(noise_scale),
        );
        let ghost start = z;
        let n: usize = self.flows.len();
        let mut i: usize = 0;
        while i < n - 1
            invariant
                n == self.flows.len(),
                n >= 2,
                i <= n - 1,
                forall|i: int|
                    0 <= i < n ==> (#[trigger] self.flows@[i]).wf(self.filter_channels()),
                self.takes(b, t),
                x_mask.is_signal(),
                x_mask.at(0) == 1 || x_mask.at(0) == b,
                x_mask.at(1) == 1,
                x_mask.at(2) == 1 || x_mask.at(2) == t,
                x.is_signal(),
                x.shape == Shape::D3(b, self.filter_channels(), t),
                z.is_signal(),
                z.shape == Shape::D3(b, 2, t),
                z == self.after_expr(i as nat, start, x_mask, x),
            decreases n - i,
        {
            let at: usize = if i < n - 2 {
                n - 1 - i
            } else {
                0
            };
            proof {
                assert(self.flows@[at as int].wf(self.filter_channels()));
                assert(self.step_takes(at as int, b, t));
                assert(x.covers(x.shape));
            }
            let (t_z, _) = self.flows[at].forward(
                z,
                x_mask.clone(),
                Some(x.clone()),
                true,
            );
            z = t_z;
            i += 1;
        }
        z.slice(1, 0, 1)
    }
}

impl StochasticDurationPredictor {
    /// Whether the predictor can be applied to `rows` signals of `length` positions.
    pub fn accepts(&self, rows: usize, length: usize) -> (r: bool)
        requires
            self.convs.wf(self.filter_channels()),
            forall|i: int|
                0 <= i < self.flows.len() ==> (#[trigger] self.flows@[i]).wf(
                    self.filter_channels(),
                ),
        ensures
            r == self.takes(rows, length),
    {
        if !self.convs.accepts_length(length) {
            return false;
        }
        let mut i: usize = 0;
        while i < self.flows.len()
            invariant
                i <= self.flows.len(),
                forall|i: int|
                    0 <= i < self.flows.len() ==> (#[trigger] self.flows@[i]).wf(
                        self.filter_channels(),
                    ),
                forall|a: int| 0 <= a < i ==> #[trigger] self.step_takes(a, rows, length),
            decreases self.flows.len() - i,
        {
            assert(self.flows@[i as int].wf(self.filter_channels()));
            let accepted = match &self.flows[i] {
                StochasticDurationPredictorLayers::ConvFlow(layer) => {
                    i == 1 || (rows == 1 && length >= 2 && layer.convs.accepts_length(length))
                },
                _ => true,
            };
            if !accepted {
                proof {
                    assert(!self.step_takes(i as int, rows, length));
                }
                return false;
            }
            i += 1;
        }
        true
    }

    /// From noise to durations, flips and spline layers take turns, except for the first spline
    /// layer, and the shift and scale comes last.
    pub proof fn lemma_steps(
        self,
        config: StochasticDurationPredictorConfig,
        path: Path,
        i: int,
    )
        requires
            config.describes(path, self),
            config.n_flows >= 1,
            0 <= i < 2 * config.n_flows,
        ensures
            self.flows.len() - 1 == 2 * config.n_flows,
            i < 2 * config.n_flows - 1 && i % 2 == 0 ==> self.step(i) is Flip,
            i < 2 * config.n_flows - 1 && i % 2 == 1 ==> self.step(i) is ConvFlow,
            i == 2 * config.n_flows - 1 ==> self.step(i) is ElementwiseAffine,
    {
        let list = path.field_expr("flows");
        let n = self.flows.len();
        assert(config.describes_step(0, list, self.flows@));
        if i < n - 2 {
            assert(config.describes_step(n - 1 - i, list, self.flows@));
        }
    }
}

/// Settings of a [`DurationPredictor`].
#[derive(Clone, Copy, PartialEq, Eq, Debug, Structural)]
pub struct DurationPredictorConfig {
    pub in_channels: usize,
    pub filter_channels: usize,
    pub kernel_size: usize,
    pub p_dropout: Real32,
    pub gin_channels: usize,
}

impl DurationPredictorConfig {
    pub fn new(
        in_channels: usize,
        filter_channels: usize,
        kernel_size: usize,
        p_dropout: Real32,
        gin_channels: usize,
    ) -> (r: DurationPredictorConfig)
        ensures
            r == (DurationPredictorConfig {
                in_channels,
                filter_channels,
                kernel_size,
                p_dropout,
                gin_channels,
            }),
    {
        DurationPredictorConfig {
            in_channels,
            filter_channels,
            kernel_size,
            p_dropout,
            gin_channels,
        }
    }
}

/// A predictor of durations without noise. Its layers are known; it cannot be made or applied.
#[derive(Debug)]
pub struct DurationPredictor {
    pub drop: Dropout,
    pub conv_1: Conv1d,
    pub norm_1: LayerNorm,
    pub conv_2: Conv1d,
    pub norm_2: LayerNorm,
    pub proj: Conv1d,
    pub cond: Option<Conv1d>,
}

/// A predictor of either kind.
#[derive(Debug)]
pub enum SynthesizerTrnLayers {
    StochasticDurationPredictor(StochasticDurationPredictor),
    DurationPredictor(DurationPredictor),
}

impl SynthesizerTrnLayers {
    /// The logarithms of the durations of the phonemes encoded in `x`. Only the stochastic
    /// predictor has any to give.
    pub fn forward(
        &self,
        x: Tensor,
        x_mask: Tensor,
        w: Option<Tensor>,
        g: Option<Tensor>,
        reverse: bool,
        noise_scale: Real,
    ) -> (r: Tensor)
        requires
            reverse,
            x.is_signal(),
            self matches SynthesizerTrnLayers::StochasticDurationPredictor(sdp) && sdp.wf(
                x.at(1),
            ) && sdp.takes(x.at(0), x.at(2)) && (g matches Some(g) ==> g.covers(
                Shape::D3(x.at(0), sdp.filter_channels(), x.at(2)),
            )),
            x_mask.is_signal(),
            x_mask.at(0) == 1 || x_mask.at(0) == x.at(0),
            x_mask.at(1) == 1,
            x_mask.at(2) == 1 || x_mask.at(2) == x.at(2),
        ensures
            r == self->StochasticDurationPredictor_0.forward_expr(x, x_mask, g, noise_scale),
            r.is_signal(),
            r.shape == Shape::D3(x.at(0), 1, x.at(2)),
    {
        match self {
            SynthesizerTrnLayers::StochasticDurationPredictor(sdp) => sdp.forward(
                x,
                x_mask,
                w,
                g,
                reverse,
                noise_scale,
            ),
            SynthesizerTrnLayers::DurationPredictor(_) => vstd::pervasive::unreached(),
        }
    }
}

} // verus!

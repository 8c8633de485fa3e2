//! Convolutions whose filters are held as directions and magnitudes.

use crate::limits::{sum_fits, wide_product};
use crate::nn::{accepts_bias, Conv1dConfig};
use crate::number::{Scalar, TWO};
use crate::param::{Initializer, Param, Path, Start};
use crate::shape::Shape;
use crate::tensor::{ScalarOp, Tensor, UnaryOp, Window};
use vstd::prelude::*;

verus! {

/// 1e-12, which keeps a division by a norm defined.
pub const NORM_FLOOR: u64 = 0x3D71_9799_812D_EA11;

/// 1e-8 in single precision.
pub const NORM_FLOOR_2D: u64 = 0x3E45_798E_E000_0000;

/// The padding on each side by which a dilated filter of an odd number of taps keeps the length.
pub fn get_padding(kernel_size: usize, dilation: usize) -> (r: usize)
    requires
        kernel_size >= 1 || dilation == 0,
        kernel_size * dilation <= usize::MAX,
    ensures
        r == (kernel_size * dilation - dilation) / 2,
        kernel_size % 2 == 1 ==> r + r == dilation * (kernel_size - 1),
{
    proof {
        lemma_reach(kernel_size, dilation);
    }
    (kernel_size * dilation - dilation) / 2
}

/// What a dilated filter covers beyond one position; an even number for an odd number of taps.
pub proof fn lemma_reach(kernel_size: usize, dilation: usize)
    requires
        kernel_size >= 1 || dilation == 0,
    ensures
        dilation * (kernel_size - 1) == kernel_size * dilation - dilation,
        0 <= dilation * (kernel_size - 1),
        kernel_size % 2 == 1 ==> (dilation * (kernel_size - 1)) % 2 == 0,
{
    assert(dilation * (kernel_size - 1) == kernel_size * dilation - dilation) by (nonlinear_arith);
    if dilation == 0 {
    } else {
        assert(0 <= dilation * (kernel_size - 1)) by (nonlinear_arith)
            requires
                kernel_size >= 1,
        ;
    }
    if kernel_size % 2 == 1 {
        let half = (kernel_size - 1) / 2;
        assert(kernel_size - 1 == 2 * half);
        assert(dilation * (kernel_size - 1) == 2 * (dilation * half)) by (nonlinear_arith)
            requires
                kernel_size - 1 == 2 * half,
        ;
    }
}

/// Filters of unit norm times their magnitudes, for filters along the first dimension of `v`.
pub open spec fn normalized_expr(v: Tensor, g: Tensor) -> Tensor {
    let norm = filter_norms_expr(v);
    g.times_expr(
        v.over_expr(norm.scalar_expr(ScalarOp::Add, Scalar::literal_expr(NORM_FLOOR))),
    )
}

/// The Euclidean norms of the filters along the first dimension.
pub open spec fn filter_norms_expr(v: Tensor) -> Tensor {
    v.scalar_expr(ScalarOp::Powf, Scalar::literal_expr(TWO)).sum_dim_expr(2).sum_dim_expr(
        1,
    ).unary_expr(UnaryOp::Sqrt)
}

/// The weights given by directions and magnitudes.
fn normalized(v: Tensor, g: Tensor) -> (r: Tensor)
    requires
        v.is_signal(),
        g.is_signal(),
        g.shape == Shape::D3(v.at(0), 1, 1),
    ensures
        r == normalized_expr(v, g),
        r.is_signal(),
        r.shape == v.shape,
{
    let norm = v.clone().scalar(ScalarOp::Powf, Scalar::literal(TWO)).sum_dim(2).sum_dim(1).unary(
        UnaryOp::Sqrt,
    );
    let v_hat = v.over(norm.scalar(ScalarOp::Add, Scalar::literal(NORM_FLOOR)));
    g.times(v_hat)
}

/// Settings of a [`WNConv1d`].
#[derive(Clone, Copy, PartialEq, Eq, Debug, Structural)]
pub struct WNConv1dConfig {
    pub channels_in: usize,
    pub channels_out: usize,
    pub kernel_size: usize,
    pub stride: usize,
    pub dilation: usize,
    pub groups: usize,
    pub padding: usize,
    pub bias: bool,
}

/// A one-dimensional convolution with normalised weights.
#[derive(Debug)]
pub struct WNConv1d {
    pub weight_g: Param,
    pub weight_v: Param,
    pub bias: Option<Param>,
    pub padding: usize,
    pub stride: usize,
    pub dilation: usize,
    pub groups: usize,
}

impl WNConv1dConfig {
    pub open spec fn usual(
        channels_in: usize,
        channels_out: usize,
        kernel_size: usize,
    ) -> WNConv1dConfig {
        WNConv1dConfig {
            channels_in,
            channels_out,
            kernel_size,
            stride: 1,
            dilation: 1,
            groups: 1,
            padding: 0,
            bias: true,
        }
    }

    /// A convolution with a bias and without stride, dilation, groups or padding.
    pub fn new(channels_in: usize, channels_out: usize, kernel_size: usize) -> (r: WNConv1dConfig)
        ensures
            r == WNConv1dConfig::usual(channels_in, channels_out, kernel_size),
    {
        WNConv1dConfig {
            channels_in,
            channels_out,
            kernel_size,
            stride: 1,
            dilation: 1,
            groups: 1,
            padding: 0,
            bias: true,
        }
    }

    pub fn with_stride(self, stride: usize) -> (r: WNConv1dConfig)
        ensures
            r == (WNConv1dConfig { stride, ..self }),
    {
        WNConv1dConfig { stride, ..self }
    }

    pub fn with_dilation(self, dilation: usize) -> (r: WNConv1dConfig)
        ensures
            r == (WNConv1dConfig { dilation, ..self }),
    {
        WNConv1dConfig { dilation, ..self }
    }

    pub fn with_groups(self, groups: usize) -> (r: WNConv1dConfig)
        ensures
            r == (WNConv1dConfig { groups, ..self }),
    {
        WNConv1dConfig { groups, ..self }
    }

    pub fn with_padding(self, padding: usize) -> (r: WNConv1dConfig)
        ensures
            r == (WNConv1dConfig { padding, ..self }),
    {
        WNConv1dConfig { padding, ..self }
    }

    pub fn with_bias(self, bias: bool) -> (r: WNConv1dConfig)
        ensures
            r == (WNConv1dConfig { bias, ..self }),
    {
        WNConv1dConfig { bias, ..self }
    }

    /// The plain convolution that the directions are taken from.
    pub open spec fn plain(self) -> Conv1dConfig {
        Conv1dConfig {
            groups: self.groups,
            ..Conv1dConfig::usual(self.channels_in, self.channels_out, self.kernel_size)
        }
    }

    pub open spec fn valid(self) -> bool {
        self.plain().valid()
    }

    /// The layer with these settings, at a path.
    pub open spec fn built(self, path: Path) -> WNConv1d {
        let conv = self.plain().built(path);
        WNConv1d {
            weight_v: Param { path: path.field_expr("weight_v"), ..conv.weight },
            weight_g: Param {
                path: path.field_expr("weight_g"),
                shape: Shape::D3(self.channels_out, 1, 1),
                start: Start::FilterNorms(path.field_expr("weight_v")),
            },
            bias: if self.bias {
                conv.bias
            } else {
                None
            },
            stride: self.stride,
            dilation: self.dilation,
            groups: self.groups,
            padding: self.padding,
        }
    }

    /// The layer with these settings, at a path.
    pub fn init(&self, path: &Path) -> (r: WNConv1d)
        requires
            self.valid(),
        ensures
            r == self.built(*path),
            r.wf(),
            r.channels_in() == self.channels_in,
            r.channels_out() == self.channels_out,
            r.kernel_size() == self.kernel_size,
    {
        let mut config = Conv1dConfig::new(self.channels_in, self.channels_out, self.kernel_size);
        config.groups = self.groups;
        let conv = config.init(path);
        WNConv1d {
            weight_v: Param {
                path: path.field("weight_v"),
                shape: conv.weight.shape,
                start: conv.weight.start.clone(),
            },
            weight_g: Param {
                path: path.field("weight_g"),
                shape: Shape::D3(self.channels_out, 1, 1),
                start: Start::FilterNorms(path.field("weight_v")),
            },
            bias: if self.bias {
                conv.bias
            } else {
                None
            },
            stride: self.stride,
            dilation: self.dilation,
            groups: self.groups,
            padding: self.padding,
        }
    }
}

impl WNConv1d {
    pub open spec fn wf(self) -> bool {
        &&& self.weight_v.shape.rank() == 3
        &&& self.weight_g.shape == Shape::D3(self.weight_v.shape.at(0), 1, 1)
        &&& self.groups >= 1
        &&& self.weight_v.shape.at(0) % self.groups == 0
        &&& crate::nn::bias_param_fits(self.bias, self.weight_v.shape.at(0))
    }

    pub open spec fn channels_in(self) -> int {
        self.weight_v.shape.at(1) * self.groups
    }

    pub open spec fn channels_out(self) -> usize {
        self.weight_v.shape.at(0)
    }

    pub open spec fn kernel_size(self) -> usize {
        self.weight_v.shape.at(2)
    }

    pub open spec fn window(self) -> Window {
        Window {
            stride: self.stride,
            before: self.padding,
            after: self.padding,
            dilation: self.dilation,
            groups: self.groups,
        }
    }

    /// A layer that leaves a signal as long as it is.
    pub open spec fn keeps_length(self, channels_in: usize, channels_out: usize) -> bool {
        &&& self.wf()
        &&& self.channels_in() == channels_in
        &&& self.channels_out() == channels_out
        &&& self.stride == 1
        &&& self.dilation >= 1
        &&& self.kernel_size() >= 1
        &&& self.padding + self.padding == self.dilation * (self.kernel_size() - 1)
    }

    pub open spec fn forward_expr(self, x: Tensor) -> Tensor {
        x.pad_expr(2, self.padding, self.padding).conv1d_expr(
            normalized_expr(self.weight_v.value_expr(), self.weight_g.value_expr()),
            Param::optional_value_expr(self.bias),
            Window { before: 0, after: 0, ..self.window() },
        )
    }

    /// The convolution of `x`, padded on both sides, with the normalised weights.
    pub fn forward(&self, x: Tensor) -> (r: Tensor)
        requires
            self.wf(),
            x.is_signal(),
            x.at(1) == self.channels_in(),
            x.at(2) + self.padding + self.padding <= usize::MAX,
            self.keeps_length(x.at(1), self.channels_out()) && x.at(2) >= 1 || self.window().fits(
                x.at(2),
                self.kernel_size(),
            ),
        ensures
            r == self.forward_expr(x),
            r.is_signal(),
            r.shape == Shape::D3(
                x.at(0),
                self.channels_out(),
                self.window().steps(x.at(2), self.kernel_size()) as usize,
            ),
            self.keeps_length(x.at(1), self.channels_out()) ==> r.at(2) == x.at(2),
    {
        proof {
            if self.keeps_length(x.at(1), self.channels_out()) && x.at(2) >= 1 {
                self.window().lemma_keeps_length(x.at(2), self.kernel_size());
            }
        }
        let w = normalized(self.weight_v.value(), self.weight_g.value());
        let x = x.pad(2, self.padding, self.padding);
        x.conv1d(
            w,
            Param::optional_value(&self.bias),
            Window {
                stride: self.stride,
                before: 0,
                after: 0,
                dilation: self.dilation,
                groups: self.groups,
            },
        )
    }
}

impl WNConv1d {
    /// Whether the layer leaves a signal as long as it is.
    pub fn is_length_keeping(&self, channels_in: usize, channels_out: usize) -> (r: bool)
        ensures
            r == self.keeps_length(channels_in, channels_out),
    {
        match self.weight_v.shape {
            Shape::D3(o, i, taps) => {
                self.weight_g.shape == Shape::D3(o, 1, 1) && self.groups >= 1 && o % self.groups
                    == 0 && accepts_bias(&self.bias, o) && wide_product(i, self.groups)
                    == channels_in as u128 && o == channels_out && self.stride == 1
                    && self.dilation >= 1 && taps >= 1 && self.padding as u128
                    + self.padding as u128 == wide_product(self.dilation, taps - 1)
            },
            _ => false,
        }
    }
}

/// Settings of a [`WNConvTranspose1d`].
#[derive(Clone, Copy, PartialEq, Eq, Debug, Structural)]
pub struct WNConvTranspose1dConfig {
    pub input_dim: usize,
    pub output_dim: usize,
    pub kernel_size: usize,
    pub stride: usize,
    pub padding: usize,
    pub output_padding: usize,
    pub bias: bool,
}

/// A one-dimensional transposed convolution with normalised weights.
#[derive(Debug)]
pub struct WNConvTranspose1d {
    pub weight_g: Param,
    pub weight_v: Param,
    pub bias: Option<Param>,
    pub stride: usize,
    pub padding: usize,
    pub output_padding: usize,
}

impl WNConvTranspose1dConfig {
    pub open spec fn usual(
        input_dim: usize,
        output_dim: usize,
        kernel_size: usize,
        stride: usize,
    ) -> WNConvTranspose1dConfig {
        WNConvTranspose1dConfig {
            input_dim,
            output_dim,
            kernel_size,
            stride,
            padding: 0,
            output_padding: 0,
            bias: true,
        }
    }

    /// A transposed convolution with a bias and without padding.
    pub fn new(input_dim: usize, output_dim: usize, kernel_size: usize, stride: usize) -> (r:
        WNConvTranspose1dConfig)
        ensures
            r == WNConvTranspose1dConfig::usual(input_dim, output_dim, kernel_size, stride),
    {
        WNConvTranspose1dConfig {
            input_dim,
            output_dim,
            kernel_size,
            stride,
            padding: 0,
            output_padding: 0,
            bias: true,
        }
    }

    pub fn with_padding(self, padding: usize) -> (r: WNConvTranspose1dConfig)
        ensures
            r == (WNConvTranspose1dConfig { padding, ..self }),
    {
        WNConvTranspose1dConfig { padding, ..self }
    }

    pub fn with_output_padding(self, output_padding: usize) -> (r: WNConvTranspose1dConfig)
        ensures
            r == (WNConvTranspose1dConfig { output_padding, ..self }),
    {
        WNConvTranspose1dConfig { output_padding, ..self }
    }

    pub fn with_bias(self, bias: bool) -> (r: WNConvTranspose1dConfig)
        ensures
            r == (WNConvTranspose1dConfig { bias, ..self }),
    {
        WNConvTranspose1dConfig { bias, ..self }
    }

    pub open spec fn valid(self) -> bool {
        self.output_dim * self.kernel_size <= usize::MAX
    }

    /// The layer with these settings, at a path.
    pub open spec fn built(self, path: Path) -> WNConvTranspose1d {
        let start = Start::Drawn {
            rule: Initializer::usual(),
            fan_in: (self.output_dim * self.kernel_size) as usize,
            fan_out: None,
        };
        WNConvTranspose1d {
            weight_v: Param {
                path: path.field_expr("weight_v"),
                shape: Shape::D3(self.input_dim, self.output_dim, self.kernel_size),
                start,
            },
            weight_g: Param {
                path: path.field_expr("weight_g"),
                shape: Shape::D3(self.input_dim, 1, 1),
                start: Start::FilterNorms(path.field_expr("weight_v")),
            },
            bias: if self.bias {
                Some(
                    Param {
                        path: path.field_expr("bias"),
                        shape: Shape::D1(self.output_dim),
                        start,
                    },
                )
            } else {
                None
            },
            stride: self.stride,
            padding: self.padding,
            output_padding: self.output_padding,
        }
    }

    /// The layer with these settings, at a path.
    pub fn init(&self, path: &Path) -> (r: WNConvTranspose1d)
        requires
            self.valid(),
        ensures
            r == self.built(*path),
            r.wf(),
    {
        let fan_in: usize = self.output_dim * self.kernel_size;
        let rule = Initializer::kaiming_uniform();
        WNConvTranspose1d {
            weight_v: Param {
                path: path.field("weight_v"),
                shape: Shape::D3(self.input_dim, self.output_dim, self.kernel_size),
                start: Start::Drawn { rule, fan_in, fan_out: None },
            },
            weight_g: Param {
                path: path.field("weight_g"),
                shape: Shape::D3(self.input_dim, 1, 1),
                start: Start::FilterNorms(path.field("weight_v")),
            },
            bias: if self.bias {
                Some(
                    Param {
                        path: path.field("bias"),
                        shape: Shape::D1(self.output_dim),
                        start: Start::Drawn { rule, fan_in, fan_out: None },
                    },
                )
            } else {
                None
            },
            stride: self.stride,
            padding: self.padding,
            output_padding: self.output_padding,
        }
    }
}

impl WNConvTranspose1d {
    pub open spec fn wf(self) -> bool {
        &&& self.weight_v.shape.rank() == 3
        &&& self.weight_g.shape == Shape::D3(self.weight_v.shape.at(0), 1, 1)
        &&& crate::nn::bias_param_fits(self.bias, self.weight_v.shape.at(1))
    }

    pub open spec fn channels_in(self) -> usize {
        self.weight_v.shape.at(0)
    }

    pub open spec fn channels_out(self) -> usize {
        self.weight_v.shape.at(1)
    }

    pub open spec fn kernel_size(self) -> usize {
        self.weight_v.shape.at(2)
    }

    /// The length that a signal of length `size` comes out with.
    pub open spec fn length_out(self, size: usize) -> int {
        crate::tensor::transposed_length(
            size,
            self.kernel_size(),
            self.stride,
            self.padding,
            self.output_padding,
        )
    }

    /// Whether the layer takes signals of a shape.
    pub open spec fn takes_shape(self, x: Shape) -> bool {
        &&& self.wf()
        &&& x.at(1) == self.channels_in()
        &&& x.at(2) >= 1
        &&& self.stride >= 1
        &&& self.kernel_size() >= 1
        &&& (x.at(2) - 1) * self.stride + self.kernel_size() + self.output_padding <= usize::MAX
        &&& self.length_out(x.at(2)) >= 0
    }

    pub open spec fn forward_expr(self, x: Tensor) -> Tensor {
        x.conv_transpose1d_expr(
            normalized_expr(self.weight_v.value_expr(), self.weight_g.value_expr()),
            Param::optional_value_expr(self.bias),
            self.stride,
            self.padding,
            self.output_padding,
        )
    }

    /// The transposed convolution of `x` with the normalised weights.
    pub fn forward(&self, x: Tensor) -> (r: Tensor)
        requires
            x.is_signal(),
            self.takes_shape(x.shape),
        ensures
            r == self.forward_expr(x),
            r.is_signal(),
            r.shape == Shape::D3(
                x.at(0),
                self.channels_out(),
                self.length_out(x.at(2)) as usize,
            ),
    {
        let w = normalized(self.weight_v.value(), self.weight_g.value());
        x.conv_transpose1d(
            w,
            Param::optional_value(&self.bias),
            self.stride,
            self.padding,
            self.output_padding,
        )
    }
}

impl WNConvTranspose1d {
    /// Whether the layer takes signals of a shape.
    pub fn accepts(&self, x: &Shape) -> (r: bool)
        ensures
            r == self.takes_shape(*x),
    {
        match self.weight_v.shape {
            Shape::D3(i, o, taps) => {
                if self.weight_g.shape != Shape::D3(i, 1, 1) || !accepts_bias(&self.bias, o)
                    || x.size_at(1) != i || x.size_at(2) == 0 || self.stride == 0 || taps == 0 {
                    return false;
                }
                match (x.size_at(2) - 1).checked_mul(self.stride) {
                    Some(spread) => {
                        sum_fits(spread, taps, self.output_padding) && self.padding as u128
                            + self.padding as u128 <= (spread + taps
                            + self.output_padding) as u128
                    },
                    None => false,
                }
            },
            _ => false,
        }
    }

    /// The length that a signal of length `size` comes out with.
    pub fn make_length(&self, size: usize) -> (r: usize)
        requires
            size >= 1,
            self.weight_v.shape.rank() == 3,
            (size - 1) * self.stride + self.kernel_size() + self.output_padding <= usize::MAX,
            self.length_out(size) >= 0,
        ensures
            r == self.length_out(size),
    {
        proof {
            assert(0 <= (size - 1) * self.stride) by (nonlinear_arith)
                requires
                    size >= 1,
            ;
        }
        let spread: usize = (size - 1) * self.stride + self.weight_v.shape.size_at(2)
            + self.output_padding;
        spread - self.padding - self.padding
    }
}

/// How many zeros a two-dimensional convolution puts around its input.
#[derive(Clone, Copy, PartialEq, Eq, Debug, Structural)]
pub enum PaddingConfig2d {
    /// None.
    Valid,
    /// As many as give one output for every step of the stride.
    Same,
    /// The given numbers on top, left, bottom and right.
    Explicit(usize, usize, usize, usize),
}

/// Settings of a [`WNConv2d`].
#[derive(Clone, Copy, PartialEq, Eq, Debug)]
pub struct WNConv2dConfig {
    /// `[channels_in, channels_out]`
    pub channels: [usize; 2],
    /// `[kernel_h, kernel_w]`
    pub kernel_size: [usize; 2],
    pub stride: [usize; 2],
    pub dilation: [usize; 2],
    pub groups: usize,
    pub padding: PaddingConfig2d,
    pub bias: bool,
    pub initializer: Initializer,
}

/// 2-D convolution with weight normalisation.
///
/// The weight tensor `w` is held as
///
/// ```text
/// w = g * (v / ‖v‖)
/// ```
///
/// where `g` (shape `[out_ch, 1, 1, 1]`) is a learnable magnitude and
/// `v` (shape `[out_ch, in_ch/groups, kH, kW]`) is a learnable direction.
#[derive(Debug)]
pub struct WNConv2d {
    /// Direction parameter `v`, of shape `[out_ch, in_ch/groups, kH, kW]`
    pub weight_v: Param,
    /// Magnitude parameter `g`, of shape `[out_ch, 1, 1, 1]`
    pub weight_g: Param,
    /// Optional bias, of shape `[out_ch]`
    pub bias: Option<Param>,
    pub stride: [usize; 2],
    pub kernel_size: [usize; 2],
    pub dilation: [usize; 2],
    pub groups: usize,
    pub padding: PaddingConfig2d,
}

impl WNConv2dConfig {
    /// A convolution with a bias and without stride, dilation, groups or padding.
    pub fn new(channels: [usize; 2], kernel_size: [usize; 2]) -> (r: WNConv2dConfig)
        ensures
            r.channels == channels,
            r.kernel_size == kernel_size,
            r.stride@ == seq![1usize, 1usize],
            r.dilation@ == seq![1usize, 1usize],
            r.groups == 1,
            r.padding is Valid,
            r.bias,
            r.initializer == Initializer::usual(),
    {
        WNConv2dConfig {
            channels,
            kernel_size,
            stride: [1, 1],
            dilation: [1, 1],
            groups: 1,
            padding: PaddingConfig2d::Valid,
            bias: true,
            initializer: Initializer::kaiming_uniform(),
        }
    }

    pub fn with_stride(self, stride: [usize; 2]) -> (r: WNConv2dConfig)
        ensures
            r == (WNConv2dConfig { stride, ..self }),
    {
        WNConv2dConfig { stride, ..self }
    }

    pub fn with_padding(self, padding: PaddingConfig2d) -> (r: WNConv2dConfig)
        ensures
            r == (WNConv2dConfig { padding, ..self }),
    {
        WNConv2dConfig { padding, ..self }
    }

    pub fn with_dilation(self, dilation: [usize; 2]) -> (r: WNConv2dConfig)
        ensures
            r == (WNConv2dConfig { dilation, ..self }),
    {
        WNConv2dConfig { dilation, ..self }
    }

    pub fn with_groups(self, groups: usize) -> (r: WNConv2dConfig)
        ensures
            r == (WNConv2dConfig { groups, ..self }),
    {
        WNConv2dConfig { groups, ..self }
    }

    pub fn with_bias(self, bias: bool) -> (r: WNConv2dConfig)
        ensures
            r == (WNConv2dConfig { bias, ..self }),
    {
        WNConv2dConfig { bias, ..self }
    }

    pub fn with_initializer(self, initializer: Initializer) -> (r: WNConv2dConfig)
        ensures
            r == (WNConv2dConfig { initializer, ..self }),
    {
        WNConv2dConfig { initializer, ..self }
    }

    /// The number of inputs of one filter.
    pub open spec fn fan_in(self) -> int {
        (self.channels[0] / self.groups) * self.kernel_size[0] * self.kernel_size[1]
    }

    /// The number of outputs that one input reaches.
    pub open spec fn fan_out(self) -> int {
        (self.channels[1] / self.groups) * self.kernel_size[0] * self.kernel_size[1]
    }

    pub open spec fn valid(self) -> bool {
        &&& self.groups >= 1
        &&& (self.channels[0] / self.groups) * self.kernel_size[0] <= usize::MAX
        &&& (self.channels[1] / self.groups) * self.kernel_size[0] <= usize::MAX
        &&& self.fan_in() <= usize::MAX
        &&& self.fan_out() <= usize::MAX
    }

    /// The layer with these settings, at a path.
    pub open spec fn built(self, path: Path) -> WNConv2d {
        let start = Start::Drawn {
            rule: self.initializer,
            fan_in: self.fan_in() as usize,
            fan_out: Some(self.fan_out() as usize),
        };
        WNConv2d {
            weight_v: Param {
                path: path.field_expr("weight_v"),
                shape: Shape::D4(
                    self.channels[1],
                    self.channels[0] / self.groups,
                    self.kernel_size[0],
                    self.kernel_size[1],
                ),
                start,
            },
            weight_g: Param {
                path: path.field_expr("weight_g"),
                shape: Shape::D4(self.channels[1], 1, 1, 1),
                start: Start::FilterNorms(path.field_expr("weight_v")),
            },
            bias: if self.bias {
                Some(
                    Param {
                        path: path.field_expr("bias"),
                        shape: Shape::D1(self.channels[1]),
                        start,
                    },
                )
            } else {
                None
            },
            stride: self.stride,
            kernel_size: self.kernel_size,
            dilation: self.dilation,
            groups: self.groups,
            padding: self.padding,
        }
    }

    /// The layer with these settings, at a path.
    pub fn init(&self, path: &Path) -> (r: WNConv2d)
        requires
            self.valid(),
        ensures
            r == self.built(*path),
    {
        let ch_in: usize = self.channels[0];
        let ch_out: usize = self.channels[1];
        let kh: usize = self.kernel_size[0];
        let kw: usize = self.kernel_size[1];
        let fan_in: usize = ch_in / self.groups * kh * kw;
        let fan_out: usize = ch_out / self.groups * kh * kw;
        let rule = self.initializer;
        WNConv2d {
            weight_v: Param {
                path: path.field("weight_v"),
                shape: Shape::D4(ch_out, ch_in / self.groups, kh, kw),
                start: Start::Drawn { rule, fan_in, fan_out: Some(fan_out) },
            },
            weight_g: Param {
                path: path.field("weight_g"),
                shape: Shape::D4(ch_out, 1, 1, 1),
                start: Start::FilterNorms(path.field("weight_v")),
            },
            bias: if self.bias {
                Some(
                    Param {
                        path: path.field("bias"),
                        shape: Shape::D1(ch_out),
                        start: Start::Drawn { rule, fan_in, fan_out: Some(fan_out) },
                    },
                )
            } else {
                None
            },
            stride: self.stride,
            kernel_size: self.kernel_size,
            dilation: self.dilation,
            groups: self.groups,
            padding: self.padding,
        }
    }
}

/// The number of steps of `stride` that cover `size_in` positions.
pub open spec fn strides_over(size_in: int, stride: int) -> int {
    (size_in + stride - 1) / stride
}

/// The number of zeros that let a filter be applied once for every step of the stride.
pub open spec fn same_padding_total(kernel_size: int, stride: int, size_in: int) -> int {
    if size_in == 0 {
        0
    } else {
        let needed = (strides_over(size_in, stride) - 1) * stride + kernel_size;
        if needed > size_in {
            needed - size_in
        } else {
            0
        }
    }
}

impl WNConv2d {
    pub open spec fn wf(self) -> bool {
        &&& self.weight_v.shape.rank() == 4
        &&& self.weight_v.shape.at(2) == self.kernel_size[0]
        &&& self.weight_v.shape.at(3) == self.kernel_size[1]
        &&& self.weight_g.shape == Shape::D4(self.weight_v.shape.at(0), 1, 1, 1)
        &&& self.groups >= 1
        &&& self.weight_v.shape.at(0) % self.groups == 0
        &&& crate::nn::bias_param_fits(self.bias, self.weight_v.shape.at(0))
    }

    /// Zeros before and after, top and bottom and then left and right.
    pub open spec fn pads(
        padding: PaddingConfig2d,
        height: usize,
        width: usize,
        kernel_size: [usize; 2],
        stride: [usize; 2],
    ) -> ((usize, usize), (usize, usize)) {
        match padding {
            PaddingConfig2d::Valid => ((0, 0), (0, 0)),
            PaddingConfig2d::Same => (
                WNConv2d::same_pads(kernel_size[0], stride[0], height),
                WNConv2d::same_pads(kernel_size[1], stride[1], width),
            ),
            PaddingConfig2d::Explicit(top, left, bottom, right) => ((top, bottom), (left, right)),
        }
    }

    /// The zeros of [`same_padding_total`], the odd one after.
    pub open spec fn same_pads(kernel_size: usize, stride: usize, size_in: usize) -> (
        usize,
        usize,
    ) {
        let total = same_padding_total(kernel_size as int, stride as int, size_in as int);
        ((total / 2) as usize, (total - total / 2) as usize)
    }

    /// The padding of one dimension can be computed in machine numbers.
    pub open spec fn same_padding_computable(
        kernel_size: usize,
        stride: usize,
        size_in: usize,
    ) -> bool {
        stride >= 1 && (size_in >= 1 ==> (strides_over(size_in as int, stride as int) - 1) * stride
            + kernel_size <= usize::MAX)
    }

    pub open spec fn rows(self, height: usize, width: usize) -> Window {
        let pads = WNConv2d::pads(self.padding, height, width, self.kernel_size, self.stride);
        Window {
            stride: self.stride[0],
            before: pads.0.0,
            after: pads.0.1,
            dilation: self.dilation[0],
            groups: self.groups,
        }
    }

    pub open spec fn columns(self, height: usize, width: usize) -> Window {
        let pads = WNConv2d::pads(self.padding, height, width, self.kernel_size, self.stride);
        Window {
            stride: self.stride[1],
            before: pads.1.0,
            after: pads.1.1,
            dilation: self.dilation[1],
            groups: self.groups,
        }
    }

    /// The directions times the magnitudes over the norms of the filters.
    pub open spec fn weight_expr(v: Tensor, g: Tensor) -> Tensor {
        let norm = v.scalar_expr(ScalarOp::Powf, Scalar::literal_expr(TWO)).sum_dim_expr(
            1,
        ).sum_dim_expr(2).sum_dim_expr(3).unary_expr(UnaryOp::Sqrt).reshape_expr(
            Shape::D4(v.at(0), 1, 1, 1),
        );
        v.times_expr(g).over_expr(
            norm.scalar_expr(ScalarOp::Add, Scalar::literal_expr(NORM_FLOOR_2D)),
        )
    }

    pub open spec fn forward_expr(self, input: Tensor) -> Tensor {
        input.conv2d_expr(
            WNConv2d::weight_expr(self.weight_v.value_expr(), self.weight_g.value_expr()),
            Param::optional_value_expr(self.bias),
            self.rows(input.at(2), input.at(3)),
            self.columns(input.at(2), input.at(3)),
        )
    }

    /// Forward pass.
    ///
    /// # Shapes
    /// - `input`:  `[batch, channels_in,  height_in,  width_in]`
    /// - output: `[batch, channels_out, height_out, width_out]`
    pub fn forward(&self, input: Tensor) -> (r: Tensor)
        requires
            self.wf(),
            input.wf(),
            input.kind == crate::tensor::Kind::Float,
            input.shape.rank() == 4,
            input.at(1) == self.weight_v.shape.at(1) * self.groups,
            self.padding is Same ==> WNConv2d::same_padding_computable(
                self.kernel_size[0],
                self.stride[0],
                input.at(2),
            ) && WNConv2d::same_padding_computable(
                self.kernel_size[1],
                self.stride[1],
                input.at(3),
            ),
            self.rows(input.at(2), input.at(3)).fits(input.at(2), self.kernel_size[0]),
            self.columns(input.at(2), input.at(3)).fits(input.at(3), self.kernel_size[1]),
        ensures
            r == self.forward_expr(input),
            r.wf(),
            r.shape == Shape::D4(
                input.at(0),
                self.weight_v.shape.at(0),
                self.rows(input.at(2), input.at(3)).steps(
                    input.at(2),
                    self.kernel_size[0],
                ) as usize,
                self.columns(input.at(2), input.at(3)).steps(
                    input.at(3),
                    self.kernel_size[1],
                ) as usize,
            ),
    {
        let v = self.weight_v.value();
        let g = self.weight_g.value();
        let channels_out: usize = v.shape.dim(0);
        let v_norm = v.clone().scalar(ScalarOp::Powf, Scalar::literal(TWO)).sum_dim(1).sum_dim(
            2,
        ).sum_dim(3).unary(UnaryOp::Sqrt).reshape(Shape::D4(channels_out, 1, 1, 1));
        let weight = v.times(g).over(
            v_norm.scalar(ScalarOp::Add, Scalar::literal(NORM_FLOOR_2D)),
        );
        let ((top, bottom), (left, right)) = WNConv2d::calculate_padding_2d_pairs(
            self.padding,
            input.shape.dim(2),
            input.shape.dim(3),
            &self.kernel_size,
            &self.stride,
        );
        let rows = Window {
            stride: self.stride[0],
            before: top,
            after: bottom,
            dilation: self.dilation[0],
            groups: self.groups,
        };
        let columns = Window {
            stride: self.stride[1],
            before: left,
            after: right,
            dilation: self.dilation[1],
            groups: self.groups,
        };
        input.conv2d(weight, Param::optional_value(&self.bias), rows, columns)
    }

    /// Zeros before and after, top and bottom and then left and right.
    pub fn calculate_padding_2d_pairs(
        padding: PaddingConfig2d,
        height: usize,
        width: usize,
        kernel_size: &[usize; 2],
        stride: &[usize; 2],
    ) -> (r: ((usize, usize), (usize, usize)))
        requires
            padding is Same ==> WNConv2d::same_padding_computable(
                kernel_size[0],
                stride[0],
                height,
            ) && WNConv2d::same_padding_computable(kernel_size[1], stride[1], width),
        ensures
            r == WNConv2d::pads(padding, height, width, *kernel_size, *stride),
    {
        match padding {
            PaddingConfig2d::Valid => ((0, 0), (0, 0)),
            PaddingConfig2d::Same => {
                let (top, bottom) = WNConv2d::calculate_same_padding(
                    kernel_size[0],
                    stride[0],
                    height,
                );
                let (left, right) = WNConv2d::calculate_same_padding(
                    kernel_size[1],
                    stride[1],
                    width,
                );
                ((top, bottom), (left, right))
            },
            PaddingConfig2d::Explicit(top, left, bottom, right) => ((top, bottom), (left, right)),
        }
    }

    /// Zeros before and after one dimension that give one output for every step of the stride.
    pub fn calculate_same_padding(kernel_size: usize, stride: usize, size_in: usize) -> (r: (
        usize,
        usize,
    ))
        requires
            WNConv2d::same_padding_computable(kernel_size, stride, size_in),
        ensures
            r == WNConv2d::same_pads(kernel_size, stride, size_in),
    {
        let size_out: usize = if size_in == 0 {
            0
        } else {
            (size_in - 1) / stride + 1
        };
        proof {
            if size_in >= 1 {
                lemma_strides_over(size_in as int, stride as int);
            }
        }
        let total_padding: usize = if size_out > 0 {
            let needed: usize = (size_out - 1) * stride + kernel_size;
            if needed > size_in {
                needed - size_in
            } else {
                0
            }
        } else {
            0
        };
        let pad_start: usize = total_padding / 2;
        let pad_end: usize = total_padding - pad_start;
        (pad_start, pad_end)
    }
}

/// Counting whole steps and a begun one.
proof fn lemma_strides_over(size_in: int, stride: int)
    requires
        size_in >= 1,
        stride >= 1,
    ensures
        strides_over(size_in, stride) == (size_in - 1) / stride + 1,
        1 <= strides_over(size_in, stride) <= size_in,
        (strides_over(size_in, stride) - 1) * stride <= size_in - 1,
        size_in <= strides_over(size_in, stride) * stride,
{
    vstd::arithmetic::div_mod::lemma_div_plus_one(size_in - 1, stride);
    vstd::arithmetic::div_mod::lemma_fundamental_div_mod(size_in - 1, stride);
    let q = (size_in - 1) / stride;
    assert(size_in - 1 == stride * q + (size_in - 1) % stride);
    assert(0 <= q <= size_in - 1) by (nonlinear_arith)
        requires
            q == (size_in - 1) / stride,
            size_in >= 1,
            stride >= 1,
    ;
    assert(q * stride == stride * q && (q + 1) * stride == stride * q + stride)
        by (nonlinear_arith);
}

/// A filter of adjacent taps over an input padded by [`WNConv2d::same_pads`] is applied once for
/// every step of the stride, and the padding is spread as evenly as it can be.
pub proof fn lemma_same_padding(kernel_size: usize, stride: usize, size_in: usize, groups: usize)
    requires
        kernel_size >= 1,
        stride >= 1,
        size_in >= 1,
        WNConv2d::same_padding_computable(kernel_size, stride, size_in),
    ensures
        ({
            let (before, after) = WNConv2d::same_pads(kernel_size, stride, size_in);
            let window = Window { stride, before, after, dilation: 1, groups };
            &&& window.fits(size_in, kernel_size)
            &&& window.steps(size_in, kernel_size) == strides_over(
                size_in as int,
                stride as int,
            )
            &&& after == before || after == before + 1
        }),
{
    lemma_strides_over(size_in as int, stride as int);
    let out = strides_over(size_in as int, stride as int);
    let total = same_padding_total(kernel_size as int, stride as int, size_in as int);
    let whole = (out - 1) * stride;
    let free = size_in + total - kernel_size;
    let rest = free - whole;
    assert(out * stride == whole + stride) by (nonlinear_arith)
        requires
            whole == (out - 1) * stride,
    ;
    assert(0 <= whole) by (nonlinear_arith)
        requires
            whole == (out - 1) * stride,
            out >= 1,
            stride >= 1,
    ;
    assert(0 <= rest < stride);
    vstd::arithmetic::div_mod::lemma_fundamental_div_mod_converse(
        free,
        stride as int,
        out - 1,
        rest,
    );
}

/// A one-dimensional convolution with spectrally normalised weights.
#[derive(Debug)]
pub struct SNConv1d {
    pub weight_g: Param,
    pub weight_v: Param,
    pub bias: Option<Param>,
}

/// A two-dimensional convolution with spectrally normalised weights.
#[derive(Debug)]
pub struct SNConv2d {
    pub weight_g: Param,
    pub weight_v: Param,
    pub bias: Option<Param>,
}

} // verus!

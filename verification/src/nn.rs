//! The plain layers that the network is assembled from.

use crate::limits::{sum_fits, wide_product};
use crate::number::Real;
use crate::param::{Initializer, Param, Path, Start};
use crate::shape::Shape;
use crate::tensor::{Kind, Tensor, Window};
use vstd::prelude::*;

verus! {

/// How many zeros a convolution puts around its input.
#[derive(Clone, Copy, PartialEq, Eq, Debug, Structural)]
pub enum PaddingConfig1d {
    /// None.
    Valid,
    /// The given numbers before and after.
    Explicit(usize, usize),
}

impl PaddingConfig1d {
    pub open spec fn before(self) -> usize {
        match self {
            PaddingConfig1d::Valid => 0,
            PaddingConfig1d::Explicit(before, _) => before,
        }
    }

    pub open spec fn after(self) -> usize {
        match self {
            PaddingConfig1d::Valid => 0,
            PaddingConfig1d::Explicit(_, after) => after,
        }
    }
}

/// Settings of a one-dimensional convolution.
#[derive(Clone, Copy, PartialEq, Eq, Debug, Structural)]
pub struct Conv1dConfig {
    pub channels_in: usize,
    pub channels_out: usize,
    pub kernel_size: usize,
    pub stride: usize,
    pub dilation: usize,
    pub groups: usize,
    pub padding: PaddingConfig1d,
    pub bias: bool,
    pub initializer: Initializer,
}

/// A one-dimensional convolution with learned weights.
#[derive(Debug)]
pub struct Conv1d {
    pub weight: Param,
    pub bias: Option<Param>,
    pub stride: usize,
    pub kernel_size: usize,
    pub dilation: usize,
    pub groups: usize,
    pub padding: PaddingConfig1d,
}

impl Conv1dConfig {
    /// The usual settings: a bias, no padding, no stride, dilation or grouping.
    pub open spec fn usual(
        channels_in: usize,
        channels_out: usize,
        kernel_size: usize,
    ) -> Conv1dConfig {
        Conv1dConfig {
            channels_in,
            channels_out,
            kernel_size,
            stride: 1,
            dilation: 1,
            groups: 1,
            padding: PaddingConfig1d::Valid,
            bias: true,
            initializer: Initializer::usual(),
        }
    }

    /// The usual settings.
    pub fn new(channels_in: usize, channels_out: usize, kernel_size: usize) -> (r: Conv1dConfig)
        ensures
            r == Conv1dConfig::usual(channels_in, channels_out, kernel_size),
    {
        Conv1dConfig {
            channels_in,
            channels_out,
            kernel_size,
            stride: 1,
            dilation: 1,
            groups: 1,
            padding: PaddingConfig1d::Valid,
            bias: true,
            initializer: Initializer::kaiming_uniform(),
        }
    }

    /// The channels divide into the groups, and the size of a filter is a machine number.
    pub open spec fn valid(self) -> bool {
        &&& self.groups >= 1
        &&& self.channels_in % self.groups == 0
        &&& self.channels_out % self.groups == 0
        &&& (self.channels_in / self.groups) * self.kernel_size <= usize::MAX
    }

    /// A convolution of single positions is in order whatever its channels.
    pub proof fn lemma_pointwise(channels_in: usize, channels_out: usize)
        ensures
            Conv1dConfig::usual(channels_in, channels_out, 1).valid(),
    {
        vstd::arithmetic::div_mod::lemma_div_basics(channels_in as int);
    }

    /// The number of inputs of one filter.
    pub open spec fn fan_in(self) -> usize {
        ((self.channels_in / self.groups) * self.kernel_size) as usize
    }

    /// The layer with these settings, at a path.
    pub open spec fn built(self, path: Path) -> Conv1d {
        Conv1d {
            weight: Param {
                path: path.field_expr("weight"),
                shape: Shape::D3(
                    self.channels_out,
                    self.channels_in / self.groups,
                    self.kernel_size,
                ),
                start: Start::Drawn {
                    rule: self.initializer,
                    fan_in: self.fan_in(),
                    fan_out: None,
                },
            },
            bias: if self.bias {
                Some(
                    Param {
                        path: path.field_expr("bias"),
                        shape: Shape::D1(self.channels_out),
                        start: Start::Drawn {
                    rule: self.initializer,
                    fan_in: self.fan_in(),
                    fan_out: None,
                },
                    },
                )
            } else {
                None
            },
            stride: self.stride,
            kernel_size: self.kernel_size,
            dilation: self.dilation,
            groups: self.groups,
            padding: self.padding,
        }
    }

    /// The layer with these settings, at a path.
    pub fn init(&self, path: &Path) -> (r: Conv1d)
        requires
            self.valid(),
        ensures
            r == self.built(*path),
            r.wf(),
            r.channels_in() == self.channels_in,
            r.channels_out() == self.channels_out,
    {
        let fan_in: usize = (self.channels_in / self.groups) * self.kernel_size;
        proof {
            vstd::arithmetic::div_mod::lemma_fundamental_div_mod(
                self.channels_in as int,
                self.groups as int,
            );
            vstd::arithmetic::mul::lemma_mul_is_commutative(
                self.groups as int,
                (self.channels_in / self.groups) as int,
            );
        }
        Conv1d {
            weight: Param {
                path: path.field("weight"),
                shape: Shape::D3(
                    self.channels_out,
                    self.channels_in / self.groups,
                    self.kernel_size,
                ),
                start: Start::Drawn { rule: self.initializer, fan_in, fan_out: None },
            },
            bias: if self.bias {
                Some(
                    Param {
                        path: path.field("bias"),
                        shape: Shape::D1(self.channels_out),
                        start: Start::Drawn { rule: self.initializer, fan_in, fan_out: None },
                    },
                )
            } else {
                None
            },
            stride: self.stride,
            kernel_size: self.kernel_size,
            dilation: self.dilation,
            groups: self.groups,
            padding: self.padding,
        }
    }
}

/// Whether a bias has one value for each of `channels`.
pub open spec fn bias_param_fits(bias: Option<Param>, channels: usize) -> bool {
    bias matches Some(b) ==> b.shape == Shape::D1(channels)
}

impl Conv1d {
    pub open spec fn wf(self) -> bool {
        &&& self.weight.shape.rank() == 3
        &&& self.groups >= 1
        &&& self.weight.shape.at(0) % self.groups == 0
        &&& self.weight.shape.at(2) == self.kernel_size
        &&& bias_param_fits(self.bias, self.weight.shape.at(0))
    }

    pub open spec fn channels_in(self) -> int {
        self.weight.shape.at(1) * self.groups
    }

    pub open spec fn channels_out(self) -> usize {
        self.weight.shape.at(0)
    }

    pub open spec fn window(self) -> Window {
        Window {
            stride: self.stride,
            before: self.padding.before(),
            after: self.padding.after(),
            dilation: self.dilation,
            groups: self.groups,
        }
    }

    /// Adjacent taps, moved one by one and without padding.
    pub open spec fn unpadded(
        self,
        channels_in: usize,
        channels_out: usize,
        kernel_size: usize,
    ) -> bool {
        &&& self.wf()
        &&& self.kernel_size == kernel_size
        &&& self.stride == 1
        &&& self.dilation == 1
        &&& self.padding is Valid
        &&& self.channels_in() == channels_in
        &&& self.channels_out() == channels_out
    }

    /// One tap, moved one by one and without padding: a matrix applied at every position.
    pub open spec fn pointwise(self, channels_in: usize, channels_out: usize) -> bool {
        self.unpadded(channels_in, channels_out, 1)
    }

    /// A layer that leaves a signal as long as it is.
    pub open spec fn keeps_length(self, channels_in: usize, channels_out: usize) -> bool {
        &&& self.wf()
        &&& self.channels_in() == channels_in
        &&& self.channels_out() == channels_out
        &&& self.stride == 1
        &&& self.dilation >= 1
        &&& self.kernel_size >= 1
        &&& self.padding.before() + self.padding.after() == self.dilation * (self.kernel_size - 1)
    }

    /// Whether signals of a length can be padded.
    pub open spec fn room_for(self, length: usize) -> bool {
        length + self.padding.before() + self.padding.after() <= usize::MAX
    }

    /// Whether the layer takes signals of a shape.
    pub open spec fn takes_shape(self, x: Shape) -> bool {
        &&& self.wf()
        &&& x.at(1) == self.channels_in()
        &&& self.window().fits(x.at(2), self.kernel_size)
    }

    /// The shape that a signal comes out with.
    pub open spec fn shape_out(self, x: Shape) -> Shape {
        Shape::D3(
            x.at(0),
            self.channels_out(),
            self.window().steps(x.at(2), self.kernel_size) as usize,
        )
    }

    pub open spec fn forward_expr(self, x: Tensor) -> Tensor {
        x.conv1d_expr(
            self.weight.value_expr(),
            Param::optional_value_expr(self.bias),
            self.window(),
        )
    }

    /// The convolution of `x` with the weights.
    pub fn forward(&self, x: Tensor) -> (r: Tensor)
        requires
            x.is_signal(),
            self.takes_shape(x.shape) || x.at(2) >= 1 && (self.pointwise(
                x.at(1),
                self.channels_out(),
            ) || self.keeps_length(x.at(1), self.channels_out()) && self.room_for(x.at(2))),
        ensures
            r == self.forward_expr(x),
            r.is_signal(),
            r.shape == self.shape_out(x.shape),
            self.pointwise(x.at(1), self.channels_out()) || self.keeps_length(
                x.at(1),
                self.channels_out(),
            ) ==> r.at(2) == x.at(2),
    {
        let window = self.steps_window();
        proof {
            if self.pointwise(x.at(1), self.channels_out()) {
                assert(self.dilation * (self.kernel_size - 1) == 0) by (nonlinear_arith)
                    requires
                        self.kernel_size == 1,
                ;
                window.lemma_keeps_length(x.at(2), 1);
            } else if self.keeps_length(x.at(1), self.channels_out()) && x.at(2) >= 1 {
                window.lemma_keeps_length(x.at(2), self.kernel_size);
            }
        }
        x.conv1d(self.weight.value(), Param::optional_value(&self.bias), window)
    }
}

impl Window {
    /// A filter that moves one by one over an input padded by what it reaches beyond one position
    /// is applied as often as the input is long.
    pub proof fn lemma_keeps_length(self, size: usize, kernel: usize)
        requires
            self.stride == 1,
            self.dilation >= 1,
            kernel >= 1,
            size >= 1,
            self.before + self.after == self.dilation * (kernel - 1),
            size + self.before + self.after <= usize::MAX,
        ensures
            self.fits(size, kernel),
            self.steps(size, kernel) == size,
    {
        vstd::arithmetic::div_mod::lemma_div_basics(size - 1);
    }
}

/// Whether a bias has one value for each of `channels`.
pub fn accepts_bias(bias: &Option<Param>, channels: usize) -> (r: bool)
    ensures
        r == bias_param_fits(*bias, channels),
{
    match bias {
        Some(b) => b.shape == Shape::D1(channels),
        None => true,
    }
}

impl Conv1d {
    fn steps_window(&self) -> (r: Window)
        ensures
            r == self.window(),
    {
        let (before, after) = match self.padding {
            PaddingConfig1d::Valid => (0usize, 0usize),
            PaddingConfig1d::Explicit(before, after) => (before, after),
        };
        Window {
            stride: self.stride,
            before,
            after,
            dilation: self.dilation,
            groups: self.groups,
        }
    }

    /// Whether the layer takes signals of a shape.
    pub fn accepts(&self, x: &Shape) -> (r: bool)
        ensures
            r == self.takes_shape(*x),
    {
        match self.weight.shape {
            Shape::D3(channels_out, channels_in, taps) => {
                self.groups >= 1 && channels_out % self.groups == 0 && taps == self.kernel_size
                    && accepts_bias(&self.bias, channels_out) && wide_product(
                    channels_in,
                    self.groups,
                ) == x.size_at(1) as u128 && self.steps_window().accepts(
                    x.size_at(2),
                    self.kernel_size,
                )
            },
            _ => false,
        }
    }

    /// Whether signals of a length can be padded.
    pub fn has_room_for(&self, length: usize) -> (r: bool)
        ensures
            r == self.room_for(length),
    {
        let window = self.steps_window();
        sum_fits(length, window.before, window.after)
    }

    /// The shape that a signal comes out with.
    pub fn make_shape(&self, x: &Shape) -> (r: Shape)
        requires
            self.takes_shape(*x),
        ensures
            r == self.shape_out(*x),
    {
        let steps: usize = self.steps_window().count_steps(x.size_at(2), self.kernel_size);
        Shape::D3(x.size_at(0), self.weight.shape.size_at(0), steps)
    }

    /// A layer without padding shortens a signal by all taps but one.
    pub proof fn lemma_unpadded(self, x: Shape, length: usize)
        requires
            self.unpadded(x.at(1), self.channels_out(), self.kernel_size),
            self.kernel_size >= 1,
            length >= 1,
            x.at(2) == length + self.kernel_size - 1,
        ensures
            self.takes_shape(x),
            self.shape_out(x) == Shape::D3(x.at(0), self.channels_out(), length),
    {
        vstd::arithmetic::div_mod::lemma_div_basics(length - 1);
    }
}

/// Normalisation over the last dimension, with learned scale and shift.
#[derive(Debug)]
pub struct LayerNorm {
    pub gamma: Param,
    pub beta: Param,
}

impl LayerNorm {
    /// The layer for `d_model` features, at a path.
    pub open spec fn built(d_model: usize, path: Path) -> LayerNorm {
        LayerNorm {
            gamma: Param {
                path: path.field_expr("gamma"),
                shape: Shape::D1(d_model),
                start: Start::Ones,
            },
            beta: Param {
                path: path.field_expr("beta"),
                shape: Shape::D1(d_model),
                start: Start::Zeros,
            },
        }
    }

    /// The layer for `d_model` features, at a path.
    pub fn init(d_model: usize, path: &Path) -> (r: LayerNorm)
        ensures
            r == LayerNorm::built(d_model, *path),
            r.features(d_model),
    {
        LayerNorm {
            gamma: Param {
                path: path.field("gamma"),
                shape: Shape::D1(d_model),
                start: Start::Ones,
            },
            beta: Param {
                path: path.field("beta"),
                shape: Shape::D1(d_model),
                start: Start::Zeros,
            },
        }
    }

    /// Whether the layer normalises `d_model` features.
    pub open spec fn features(self, d_model: usize) -> bool {
        self.gamma.shape == Shape::D1(d_model) && self.beta.shape == Shape::D1(d_model)
    }

    /// The normalisation over the channels of a signal, which are its middle dimension.
    pub open spec fn over_channels_expr(self, x: Tensor) -> Tensor {
        x.swap_dims_expr(1, 2).layer_norm_expr(
            self.gamma.value_expr(),
            self.beta.value_expr(),
        ).swap_dims_expr(2, 1)
    }

    /// The normalisation over the channels of a signal.
    pub fn over_channels(&self, x: Tensor) -> (r: Tensor)
        requires
            x.is_signal(),
            self.features(x.at(1)),
        ensures
            r == self.over_channels_expr(x),
            r.is_signal(),
            r.shape == x.shape,
    {
        x.swap_dims(1, 2).layer_norm(self.gamma.value(), self.beta.value()).swap_dims(2, 1)
    }
}

/// A table of learned vectors.
#[derive(Debug)]
pub struct Embedding {
    pub weight: Param,
}

impl Embedding {
    /// The table of `n_embedding` vectors of `d_model` features, at a path.
    pub open spec fn built(n_embedding: usize, d_model: usize, path: Path) -> Embedding {
        Embedding {
            weight: Param {
                path: path.field_expr("weight"),
                shape: Shape::D2(n_embedding, d_model),
                start: Start::Normal,
            },
        }
    }

    /// The table of `n_embedding` vectors of `d_model` features, at a path.
    pub fn init(n_embedding: usize, d_model: usize, path: &Path) -> (r: Embedding)
        ensures
            r == Embedding::built(n_embedding, d_model, *path),
    {
        Embedding {
            weight: Param {
                path: path.field("weight"),
                shape: Shape::D2(n_embedding, d_model),
                start: Start::Normal,
            },
        }
    }

    pub open spec fn forward_expr(self, ids: Tensor) -> Tensor {
        ids.embedding_expr(self.weight.value_expr())
    }

    /// The vectors at the indices `ids`.
    pub fn forward(&self, ids: Tensor) -> (r: Tensor)
        requires
            ids.wf(),
            ids.kind == Kind::Int,
            ids.shape.rank() == 2,
            self.weight.shape.rank() == 2,
        ensures
            r == self.forward_expr(ids),
            r.is_signal(),
            r.shape == Shape::D3(ids.at(0), ids.at(1), self.weight.shape.at(1)),
    {
        ids.embedding(self.weight.value())
    }
}

/// Random dropping of elements while training.
#[derive(Clone, Copy, PartialEq, Eq, Debug, Structural)]
pub struct Dropout {
    pub prob: Real,
}

impl Dropout {
    /// The layer that drops with a probability.
    pub fn init(prob: Real) -> (r: Dropout)
        requires
            prob.within_unit(),
        ensures
            r == (Dropout { prob }),
    {
        Dropout { prob }
    }

    pub open spec fn forward_expr(self, x: Tensor) -> Tensor {
        x.dropout_expr(self.prob)
    }

    /// `x`, thinned out while training.
    pub fn forward(&self, x: Tensor) -> (r: Tensor)
        requires
            x.wf(),
            x.kind == Kind::Float,
        ensures
            r == self.forward_expr(x),
            r.wf(),
            r.kind == Kind::Float,
            r.shape == x.shape,
    {
        x.dropout(self.prob)
    }
}

} // verus!

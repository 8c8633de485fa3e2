//! Tensor expressions.
//!
//! A [`Tensor`] is a recipe: an operation, its operands, and the kind and shape of what it yields.
//! Nothing is computed here. Whoever holds the numbers evaluates the recipe with a tensor library
//! of their choice, and a well-formed recipe never gives that library operands of kinds or shapes
//! that it would refuse. Which indices a tensor of indices holds, and whether what is guarded
//! holds, shows only then.

use crate::limits::sum_fits;
use crate::number::{share, Real, Scalar};
use crate::param::{Param, Path};
use crate::shape::Shape;
use std::rc::Rc;
use vstd::prelude::*;

verus! {

/// What the elements of a tensor are.
#[derive(Clone, Copy, PartialEq, Eq, Debug, Structural)]
pub enum Kind {
    Float,
    Int,
    Bool,
}

/// The random tensors that a synthesis draws, with elements spread evenly between zero and one.
/// Each is drawn once.
#[derive(Clone, Copy, PartialEq, Eq, Debug, Structural)]
pub enum Noise {
    /// The noise that the duration flow turns into durations.
    Duration,
    /// The noise added to the prior.
    Prior,
}

/// Operations on one tensor, element by element.
#[derive(Clone, Copy, PartialEq, Eq, Debug, Structural)]
pub enum UnaryOp {
    Exp,
    Log,
    /// The logarithm of one more than the element.
    Log1p,
    Sqrt,
    Tanh,
    Sigmoid,
    Relu,
    Gelu,
    /// The logarithm of one more than the exponential of the element.
    Softplus,
    Ceil,
    Neg,
    Abs,
    Not,
    ToFloat,
    /// Conversion to integers, dropping fractions.
    ToInt,
}

/// Operations on a tensor and a scalar, element by element.
#[derive(Clone, Copy, PartialEq, Eq, Debug, Structural)]
pub enum ScalarOp {
    Add,
    /// The element less the scalar.
    Sub,
    /// The scalar less the element.
    SubFrom,
    Mul,
    Div,
    /// The element to a whole power.
    Powi,
    /// The element to a real power.
    Powf,
    /// The element, or the scalar where that is greater.
    ClampMin,
    /// The element, or the scalar times the element where that is negative.
    LeakyRelu,
    GreaterEqual,
    LowerEqual,
    Equal,
}

/// Operations on two tensors, element by element, dimensions of size one stretched.
#[derive(Clone, Copy, PartialEq, Eq, Debug, Structural)]
pub enum BinaryOp {
    Add,
    Sub,
    Mul,
    Div,
    Lower,
    GreaterEqual,
    And,
}

/// How a tensor is obtained.
#[derive(Debug)]
pub enum Op {
    /// Given from outside, by number.
    Input(usize),
    /// The learned parameter at a path.
    Param(Path),
    /// Drawn at random.
    Noise(Noise),
    Zeros,
    Ones,
    /// The whole numbers from zero.
    Arange,
    Unary(UnaryOp, Tensor),
    Scalar(ScalarOp, Tensor, Scalar),
    Binary(BinaryOp, Tensor, Tensor),
    Matmul(Tensor, Tensor),
    /// The same elements in row-major order under another shape.
    Reshape(Tensor),
    /// Two dimensions exchanged.
    SwapDims(Tensor, usize, usize),
    /// One dimension reversed.
    Flip(Tensor, usize),
    /// Zeros put before and after one dimension.
    Pad(Tensor, usize, usize, usize),
    /// The indices from the first to before the second along one dimension.
    Slice(Tensor, usize, usize, usize),
    /// One index along one dimension overwritten by a scalar.
    SliceFill(Tensor, usize, usize, Scalar),
    /// One index along one dimension overwritten by the last tensor.
    SliceAssign(Tensor, usize, usize, Tensor),
    /// Two tensors one after the other along one dimension.
    Cat(Tensor, Tensor, usize),
    /// Elements picked along one dimension by the indices in the last tensor.
    Gather(Tensor, usize, Tensor),
    /// The scalar where the mask holds, the element elsewhere.
    MaskFill(Tensor, Tensor, Scalar),
    /// The element of the last tensor where the mask holds, of the first elsewhere.
    MaskWhere(Tensor, Tensor, Tensor),
    /// Sums along one dimension, which is left with size one.
    SumDim(Tensor, usize),
    /// Running sums along one dimension.
    Cumsum(Tensor, usize),
    /// Softmax along one dimension.
    Softmax(Tensor, usize),
    /// The greatest element.
    Max(Tensor),
    /// Zero below the diagonal that lies the given number above the main one.
    Triu(Tensor, i64),
    /// Zero above the diagonal that lies the given number above the main one.
    Tril(Tensor, i64),
    Conv1d { x: Tensor, weight: Tensor, bias: Option<Tensor>, window: Window },
    ConvTranspose1d {
        x: Tensor,
        weight: Tensor,
        bias: Option<Tensor>,
        stride: usize,
        padding: usize,
        output_padding: usize,
    },
    Conv2d {
        x: Tensor,
        weight: Tensor,
        bias: Option<Tensor>,
        rows: Window,
        columns: Window,
    },
    /// Normalisation over the last dimension.
    LayerNorm { x: Tensor, gamma: Tensor, beta: Tensor },
    /// Rows of the weight picked by the indices.
    Embedding { ids: Tensor, weight: Tensor },
    /// Elements dropped at random while training; the tensor itself otherwise.
    Dropout(Tensor, Real),
    /// The first tensor, provided that every element of the second holds.
    Guard(Tensor, Tensor),
}

/// How a convolution moves along one dimension.
#[derive(Clone, Copy, PartialEq, Eq, Debug, Structural)]
pub struct Window {
    pub stride: usize,
    pub before: usize,
    pub after: usize,
    pub dilation: usize,
    pub groups: usize,
}

/// A tensor, as a recipe for computing it.
#[derive(Debug)]
pub struct Tensor {
    pub kind: Kind,
    pub shape: Shape,
    pub op: Rc<Op>,
}

/// A single-precision number that the computation yields on the side.
#[derive(Debug)]
pub enum Single {
    Zero,
    /// The first element of a tensor.
    First(Tensor),
}

impl Clone for Tensor {
    fn clone(&self) -> (r: Self)
        ensures
            r == *self,
    {
        Tensor { kind: self.kind, shape: self.shape, op: share(&self.op) }
    }
}

/// The kind that a unary operation yields, where it applies.
pub open spec fn unary_kind(op: UnaryOp, kind: Kind) -> Option<Kind> {
    match op {
        UnaryOp::Not => if kind == Kind::Bool { Some(Kind::Bool) } else { None },
        UnaryOp::ToFloat => if kind != Kind::Float { Some(Kind::Float) } else { None },
        UnaryOp::ToInt => if kind != Kind::Int { Some(Kind::Int) } else { None },
        UnaryOp::Neg | UnaryOp::Abs => if kind != Kind::Bool { Some(kind) } else { None },
        _ => if kind == Kind::Float { Some(Kind::Float) } else { None },
    }
}

/// The kind that an operation with a scalar yields, where it applies.
pub open spec fn scalar_kind(op: ScalarOp, kind: Kind) -> Option<Kind> {
    match op {
        ScalarOp::GreaterEqual | ScalarOp::LowerEqual | ScalarOp::Equal => if kind != Kind::Bool {
            Some(Kind::Bool)
        } else { None },
        ScalarOp::Powf | ScalarOp::LeakyRelu => if kind == Kind::Float { Some(kind) } else { None },
        _ => if kind != Kind::Bool { Some(kind) } else { None },
    }
}

/// The kind that an operation on two tensors of one kind yields, where it applies.
pub open spec fn binary_kind(op: BinaryOp, kind: Kind) -> Option<Kind> {
    match op {
        BinaryOp::Lower | BinaryOp::GreaterEqual => if kind != Kind::Bool {
            Some(Kind::Bool)
        } else { None },
        BinaryOp::And => if kind == Kind::Bool { Some(kind) } else { None },
        _ => if kind != Kind::Bool { Some(kind) } else { None },
    }
}

impl Window {
    /// The number of padded positions that one filter of `kernel` taps covers.
    pub open spec fn reach(self, kernel: usize) -> int {
        self.dilation * (kernel - 1) + 1
    }

    /// Whether the filter fits at least once into `size` padded positions.
    pub open spec fn fits(self, size: usize, kernel: usize) -> bool {
        &&& self.stride >= 1
        &&& self.dilation >= 1
        &&& kernel >= 1
        &&& self.reach(kernel) <= size + self.before + self.after <= usize::MAX
    }

    /// The number of positions at which the filter is applied.
    pub open spec fn steps(self, size: usize, kernel: usize) -> int {
        (size + self.before + self.after - self.reach(kernel)) / (self.stride as int) + 1
    }
}

/// The length that a transposed convolution with undilated filters yields.
pub open spec fn transposed_length(
    size: usize,
    kernel: usize,
    stride: usize,
    padding: usize,
    output_padding: usize,
) -> int {
    (size - 1) * stride + kernel + output_padding - 2 * padding
}

/// Whether matrices of these shapes multiply, batch by batch.
pub open spec fn multiplies(a: Shape, b: Shape) -> bool {
    match (a, b) {
        (Shape::D2(_, k), Shape::D2(l, _)) => k == l,
        (Shape::D3(n, _, k), Shape::D3(m, l, _)) => k == l && Shape::sizes_agree(n, m),
        (Shape::D4(n, p, _, k), Shape::D4(m, q, l, _)) => {
            k == l && Shape::sizes_agree(n, m) && Shape::sizes_agree(p, q)
        },
        _ => false,
    }
}

/// The shape of a matrix product.
pub open spec fn product_shape(a: Shape, b: Shape) -> Shape {
    match (a, b) {
        (Shape::D2(r, _), Shape::D2(_, c)) => Shape::D2(r, c),
        (Shape::D3(n, r, _), Shape::D3(m, _, c)) => Shape::D3(Shape::joined_size(n, m), r, c),
        (Shape::D4(n, p, r, _), Shape::D4(m, q, _, c)) => Shape::D4(
            Shape::joined_size(n, m),
            Shape::joined_size(p, q),
            r,
            c,
        ),
        _ => a,
    }
}

/// Whether a bias belongs to a layer with this many output channels.
pub open spec fn bias_fits(bias: Option<Tensor>, channels: usize) -> bool {
    match bias {
        Some(b) => b.kind == Kind::Float && b.shape == Shape::D1(channels),
        None => true,
    }
}

/// Whether `b` agrees with `a` in every dimension but `dim`.
pub open spec fn agree_beyond(a: Shape, b: Shape, dim: int) -> bool {
    a.rank() == b.rank() && a.resized(dim, 0) == b.resized(dim, 0)
}

impl Tensor {
    /// Every operation of the recipe gets operands of kinds and shapes that it takes, and its
    /// result is recorded with the kind and shape that the operation yields.
    pub closed spec fn wf(self) -> bool
        decreases self,
    {
        match *self.op {
            Op::Input(_) => true,
            Op::Param(_) | Op::Noise(_) | Op::Zeros | Op::Ones => self.kind == Kind::Float,
            Op::Arange => self.kind == Kind::Int && self.shape.rank() == 1,
            Op::Unary(op, x) => x.wf() && unary_kind(op, x.kind) == Some(self.kind) && self.shape
                == x.shape,
            Op::Scalar(op, x, _) => x.wf() && scalar_kind(op, x.kind) == Some(self.kind)
                && self.shape == x.shape,
            Op::Binary(op, x, y) => {
                &&& x.wf()
                &&& y.wf()
                &&& x.kind == y.kind
                &&& binary_kind(op, x.kind) == Some(self.kind)
                &&& x.shape.joins(y.shape)
                &&& self.shape == x.shape.joined(y.shape)
            },
            Op::Matmul(x, y) => {
                &&& x.wf()
                &&& y.wf()
                &&& x.kind == Kind::Float
                &&& y.kind == Kind::Float
                &&& self.kind == Kind::Float
                &&& multiplies(x.shape, y.shape)
                &&& self.shape == product_shape(x.shape, y.shape)
            },
            Op::Reshape(x) => x.wf() && self.kind == x.kind && self.shape.count()
                == x.shape.count(),
            Op::SwapDims(x, i, j) => {
                &&& x.wf()
                &&& self.kind == x.kind
                &&& i < x.shape.rank()
                &&& j < x.shape.rank()
                &&& self.shape == x.shape.swapped(i as int, j as int)
            },
            Op::Flip(x, dim) => x.wf() && self.kind == x.kind && dim < x.shape.rank()
                && self.shape == x.shape,
            Op::Pad(x, dim, before, after) => {
                &&& x.wf()
                &&& self.kind == x.kind
                &&& x.kind != Kind::Bool
                &&& dim < x.shape.rank()
                &&& x.shape.at(dim as int) + before + after <= usize::MAX
                &&& self.shape == x.shape.resized(
                    dim as int,
                    (x.shape.at(dim as int) + before + after) as usize,
                )
            },
            Op::Slice(x, dim, start, end) => {
                &&& x.wf()
                &&& self.kind == x.kind
                &&& dim < x.shape.rank()
                &&& start <= end <= x.shape.at(dim as int)
                &&& self.shape == x.shape.resized(dim as int, (end - start) as usize)
            },
            Op::SliceFill(x, dim, index, _) => {
                &&& x.wf()
                &&& self.kind == x.kind
                &&& dim < x.shape.rank()
                &&& index < x.shape.at(dim as int)
                &&& self.shape == x.shape
            },
            Op::SliceAssign(x, dim, index, y) => {
                &&& x.wf()
                &&& y.wf()
                &&& self.kind == x.kind
                &&& y.kind == x.kind
                &&& dim < x.shape.rank()
                &&& index < x.shape.at(dim as int)
                &&& y.shape == x.shape.resized(dim as int, 1)
                &&& self.shape == x.shape
            },
            Op::Cat(x, y, dim) => {
                &&& x.wf()
                &&& y.wf()
                &&& self.kind == x.kind
                &&& y.kind == x.kind
                &&& dim < x.shape.rank()
                &&& agree_beyond(x.shape, y.shape, dim as int)
                &&& x.shape.at(dim as int) + y.shape.at(dim as int) <= usize::MAX
                &&& self.shape == x.shape.resized(
                    dim as int,
                    (x.shape.at(dim as int) + y.shape.at(dim as int)) as usize,
                )
            },
            Op::Gather(x, dim, ids) => {
                &&& x.wf()
                &&& ids.wf()
                &&& self.kind == x.kind
                &&& ids.kind == Kind::Int
                &&& dim < x.shape.rank()
                &&& agree_beyond(x.shape, ids.shape, dim as int)
                &&& self.shape == ids.shape
            },
            Op::MaskFill(x, mask, _) => {
                &&& x.wf()
                &&& mask.wf()
                &&& self.kind == x.kind
                &&& mask.kind == Kind::Bool
                &&& x.shape.joins(mask.shape)
                &&& x.shape.joined(mask.shape) == x.shape
                &&& self.shape == x.shape
            },
            Op::MaskWhere(x, mask, y) => {
                &&& x.wf()
                &&& mask.wf()
                &&& y.wf()
                &&& self.kind == x.kind
                &&& y.kind == x.kind
                &&& mask.kind == Kind::Bool
                &&& x.shape.joins(mask.shape)
                &&& x.shape.joined(mask.shape) == x.shape
                &&& y.shape == x.shape
                &&& self.shape == x.shape
            },
            Op::SumDim(x, dim) => {
                &&& x.wf()
                &&& self.kind == x.kind
                &&& x.kind != Kind::Bool
                &&& dim < x.shape.rank()
                &&& self.shape == x.shape.resized(dim as int, 1)
            },
            Op::Cumsum(x, dim) => x.wf() && self.kind == x.kind && x.kind != Kind::Bool && dim
                < x.shape.rank() && self.shape == x.shape,
            Op::Softmax(x, dim) => x.wf() && self.kind == x.kind && x.kind == Kind::Float && dim
                < x.shape.rank() && self.shape == x.shape,
            Op::Max(x) => x.wf() && self.kind == x.kind && x.kind != Kind::Bool && self.shape
                == Shape::D1(1),
            Op::Triu(x, _) | Op::Tril(x, _) => x.wf() && self.kind == x.kind && x.kind
                != Kind::Bool && x.shape.rank() >= 2 && self.shape == x.shape,
            Op::Conv1d { x, weight, bias, window } => {
                &&& x.wf()
                &&& weight.wf()
                &&& (bias matches Some(b) ==> b.wf())
                &&& self.kind == Kind::Float
                &&& conv1d_takes(x, weight, bias, window)
                &&& self.shape == conv1d_shape(x.shape, weight.shape, window)
            },
            Op::ConvTranspose1d { x, weight, bias, stride, padding, output_padding } => {
                &&& x.wf()
                &&& weight.wf()
                &&& (bias matches Some(b) ==> b.wf())
                &&& self.kind == Kind::Float
                &&& conv_transpose1d_takes(x, weight, bias, stride, padding, output_padding)
                &&& self.shape == conv_transpose1d_shape(
                    x.shape,
                    weight.shape,
                    stride,
                    padding,
                    output_padding,
                )
            },
            Op::Conv2d { x, weight, bias, rows, columns } => {
                &&& x.wf()
                &&& weight.wf()
                &&& (bias matches Some(b) ==> b.wf())
                &&& self.kind == Kind::Float
                &&& conv2d_takes(x, weight, bias, rows, columns)
                &&& self.shape == conv2d_shape(x.shape, weight.shape, rows, columns)
            },
            Op::LayerNorm { x, gamma, beta } => {
                &&& x.wf()
                &&& gamma.wf()
                &&& beta.wf()
                &&& x.kind == Kind::Float
                &&& gamma.kind == Kind::Float
                &&& beta.kind == Kind::Float
                &&& self.kind == Kind::Float
                &&& gamma.shape == Shape::D1(x.shape.at(x.shape.rank() - 1))
                &&& beta.shape == gamma.shape
                &&& self.shape == x.shape
            },
            Op::Embedding { ids, weight } => {
                &&& ids.wf()
                &&& weight.wf()
                &&& ids.kind == Kind::Int
                &&& weight.kind == Kind::Float
                &&& self.kind == Kind::Float
                &&& ids.shape.rank() == 2
                &&& weight.shape.rank() == 2
                &&& self.shape == Shape::D3(ids.shape.at(0), ids.shape.at(1), weight.shape.at(1))
            },
            Op::Dropout(x, _) => x.wf() && x.kind == Kind::Float && self.kind == Kind::Float
                && self.shape == x.shape,
            Op::Guard(x, condition) => {
                &&& x.wf()
                &&& condition.wf()
                &&& condition.kind == Kind::Bool
                &&& self.kind == x.kind
                &&& self.shape == x.shape
            },
        }
    }

    /// A well-formed tensor of real numbers with three dimensions.
    pub open spec fn is_signal(self) -> bool {
        self.wf() && self.kind == Kind::Float && self.shape.rank() == 3
    }

    /// Whether this mask applies to signals of a shape without stretching them.
    pub open spec fn covers(self, shape: Shape) -> bool {
        self.is_signal() && shape.joins(self.shape) && shape.joined(self.shape) == shape
    }

    /// The size of dimension `i`.
    pub open spec fn at(self, i: int) -> usize {
        self.shape.at(i)
    }
}

/// Whether a one-dimensional convolution takes these operands.
pub open spec fn conv1d_takes(
    x: Tensor,
    weight: Tensor,
    bias: Option<Tensor>,
    window: Window,
) -> bool {
    &&& x.kind == Kind::Float
    &&& weight.kind == Kind::Float
    &&& x.shape.rank() == 3
    &&& weight.shape.rank() == 3
    &&& window.groups >= 1
    &&& x.at(1) == weight.at(1) * window.groups
    &&& weight.at(0) % window.groups == 0
    &&& bias_fits(bias, weight.at(0))
    &&& window.fits(x.at(2), weight.at(2))
}

pub open spec fn conv1d_shape(x: Shape, weight: Shape, window: Window) -> Shape {
    Shape::D3(x.at(0), weight.at(0), window.steps(x.at(2), weight.at(2)) as usize)
}

/// Whether a one-dimensional transposed convolution takes these operands.
pub open spec fn conv_transpose1d_takes(
    x: Tensor,
    weight: Tensor,
    bias: Option<Tensor>,
    stride: usize,
    padding: usize,
    output_padding: usize,
) -> bool {
    &&& x.kind == Kind::Float
    &&& weight.kind == Kind::Float
    &&& x.shape.rank() == 3
    &&& weight.shape.rank() == 3
    &&& x.at(1) == weight.at(0)
    &&& bias_fits(bias, weight.at(1))
    &&& x.at(2) >= 1
    &&& stride >= 1
    &&& weight.at(2) >= 1
    &&& (x.at(2) - 1) * stride + weight.at(2) + output_padding <= usize::MAX
    &&& 0 <= transposed_length(x.at(2), weight.at(2), stride, padding, output_padding)
}

pub open spec fn conv_transpose1d_shape(
    x: Shape,
    weight: Shape,
    stride: usize,
    padding: usize,
    output_padding: usize,
) -> Shape {
    Shape::D3(
        x.at(0),
        weight.at(1),
        transposed_length(x.at(2), weight.at(2), stride, padding, output_padding) as usize,
    )
}

/// Whether a two-dimensional convolution takes these operands.
pub open spec fn conv2d_takes(
    x: Tensor,
    weight: Tensor,
    bias: Option<Tensor>,
    rows: Window,
    columns: Window,
) -> bool {
    &&& x.kind == Kind::Float
    &&& weight.kind == Kind::Float
    &&& x.shape.rank() == 4
    &&& weight.shape.rank() == 4
    &&& rows.groups >= 1
    &&& columns.groups == rows.groups
    &&& x.at(1) == weight.at(1) * rows.groups
    &&& weight.at(0) % rows.groups == 0
    &&& bias_fits(bias, weight.at(0))
    &&& rows.fits(x.at(2), weight.at(2))
    &&& columns.fits(x.at(3), weight.at(3))
}

pub open spec fn conv2d_shape(x: Shape, weight: Shape, rows: Window, columns: Window) -> Shape {
    Shape::D4(
        x.at(0),
        weight.at(0),
        rows.steps(x.at(2), weight.at(2)) as usize,
        columns.steps(x.at(3), weight.at(3)) as usize,
    )
}

// The expressions that the operations yield.

impl Tensor {
    #[verifier::opaque]
    pub open spec fn leaf_expr(kind: Kind, shape: Shape, op: Op) -> Tensor {
        Tensor { kind, shape, op: Rc::new(op) }
    }

    pub open spec fn input_expr(number: usize, kind: Kind, shape: Shape) -> Tensor {
        Tensor::leaf_expr(kind, shape, Op::Input(number))
    }

    pub open spec fn noise_expr(noise: Noise, shape: Shape) -> Tensor {
        Tensor::leaf_expr(Kind::Float, shape, Op::Noise(noise))
    }

    pub open spec fn zeros_expr(shape: Shape) -> Tensor {
        Tensor::leaf_expr(Kind::Float, shape, Op::Zeros)
    }

    pub open spec fn ones_expr(shape: Shape) -> Tensor {
        Tensor::leaf_expr(Kind::Float, shape, Op::Ones)
    }

    pub open spec fn arange_expr(n: usize) -> Tensor {
        Tensor::leaf_expr(Kind::Int, Shape::D1(n), Op::Arange)
    }

    #[verifier::opaque]
    pub open spec fn unary_expr(self, op: UnaryOp) -> Tensor {
        Tensor {
            kind: unary_kind(op, self.kind)->0,
            shape: self.shape,
            op: Rc::new(Op::Unary(op, self)),
        }
    }

    #[verifier::opaque]
    pub open spec fn scalar_expr(self, op: ScalarOp, value: Scalar) -> Tensor {
        Tensor {
            kind: scalar_kind(op, self.kind)->0,
            shape: self.shape,
            op: Rc::new(Op::Scalar(op, self, value)),
        }
    }

    #[verifier::opaque]
    pub open spec fn binary_expr(self, op: BinaryOp, other: Tensor) -> Tensor {
        Tensor {
            kind: binary_kind(op, self.kind)->0,
            shape: self.shape.joined(other.shape),
            op: Rc::new(Op::Binary(op, self, other)),
        }
    }

    pub open spec fn plus_expr(self, other: Tensor) -> Tensor {
        self.binary_expr(BinaryOp::Add, other)
    }

    pub open spec fn minus_expr(self, other: Tensor) -> Tensor {
        self.binary_expr(BinaryOp::Sub, other)
    }

    pub open spec fn times_expr(self, other: Tensor) -> Tensor {
        self.binary_expr(BinaryOp::Mul, other)
    }

    pub open spec fn over_expr(self, other: Tensor) -> Tensor {
        self.binary_expr(BinaryOp::Div, other)
    }

    #[verifier::opaque]
    pub open spec fn matmul_expr(self, other: Tensor) -> Tensor {
        Tensor {
            kind: Kind::Float,
            shape: product_shape(self.shape, other.shape),
            op: Rc::new(Op::Matmul(self, other)),
        }
    }

    #[verifier::opaque]
    pub open spec fn reshape_expr(self, shape: Shape) -> Tensor {
        Tensor { kind: self.kind, shape, op: Rc::new(Op::Reshape(self)) }
    }

    pub open spec fn unsqueeze_expr(self, dim: int) -> Tensor {
        self.reshape_expr(self.shape.with_unit(dim))
    }

    pub open spec fn squeeze_expr(self, dim: int) -> Tensor {
        self.reshape_expr(self.shape.without(dim))
    }

    /// All dimensions of size one taken out, leaving one.
    pub open spec fn squeeze1_expr(self) -> Tensor {
        self.reshape_expr(Shape::D1(self.shape.sizes_beyond_one()[0]))
    }

    /// All dimensions of size one taken out, leaving two.
    pub open spec fn squeeze2_expr(self) -> Tensor {
        let sizes = self.shape.sizes_beyond_one();
        self.reshape_expr(Shape::D2(sizes[0], sizes[1]))
    }

    #[verifier::opaque]
    pub open spec fn swap_dims_expr(self, i: usize, j: usize) -> Tensor {
        Tensor {
            kind: self.kind,
            shape: self.shape.swapped(i as int, j as int),
            op: Rc::new(Op::SwapDims(self, i, j)),
        }
    }

    #[verifier::opaque]
    pub open spec fn flip_expr(self, dim: usize) -> Tensor {
        Tensor { kind: self.kind, shape: self.shape, op: Rc::new(Op::Flip(self, dim)) }
    }

    #[verifier::opaque]
    pub open spec fn pad_expr(self, dim: usize, before: usize, after: usize) -> Tensor {
        Tensor {
            kind: self.kind,
            shape: self.shape.resized(
                dim as int,
                (self.shape.at(dim as int) + before + after) as usize,
            ),
            op: Rc::new(Op::Pad(self, dim, before, after)),
        }
    }

    #[verifier::opaque]
    pub open spec fn slice_expr(self, dim: usize, start: usize, end: usize) -> Tensor {
        Tensor {
            kind: self.kind,
            shape: self.shape.resized(dim as int, (end - start) as usize),
            op: Rc::new(Op::Slice(self, dim, start, end)),
        }
    }

    #[verifier::opaque]
    pub open spec fn slice_fill_expr(self, dim: usize, index: usize, value: Scalar) -> Tensor {
        Tensor {
            kind: self.kind,
            shape: self.shape,
            op: Rc::new(Op::SliceFill(self, dim, index, value)),
        }
    }

    #[verifier::opaque]
    pub open spec fn slice_assign_expr(self, dim: usize, index: usize, values: Tensor) -> Tensor {
        Tensor {
            kind: self.kind,
            shape: self.shape,
            op: Rc::new(Op::SliceAssign(self, dim, index, values)),
        }
    }

    #[verifier::opaque]
    pub open spec fn cat_expr(self, other: Tensor, dim: usize) -> Tensor {
        Tensor {
            kind: self.kind,
            shape: self.shape.resized(
                dim as int,
                (self.shape.at(dim as int) + other.shape.at(dim as int)) as usize,
            ),
            op: Rc::new(Op::Cat(self, other, dim)),
        }
    }

    #[verifier::opaque]
    pub open spec fn gather_expr(self, dim: usize, ids: Tensor) -> Tensor {
        Tensor { kind: self.kind, shape: ids.shape, op: Rc::new(Op::Gather(self, dim, ids)) }
    }

    #[verifier::opaque]
    pub open spec fn mask_fill_expr(self, mask: Tensor, value: Scalar) -> Tensor {
        Tensor {
            kind: self.kind,
            shape: self.shape,
            op: Rc::new(Op::MaskFill(self, mask, value)),
        }
    }

    #[verifier::opaque]
    pub open spec fn mask_where_expr(self, mask: Tensor, other: Tensor) -> Tensor {
        Tensor {
            kind: self.kind,
            shape: self.shape,
            op: Rc::new(Op::MaskWhere(self, mask, other)),
        }
    }

    #[verifier::opaque]
    pub open spec fn sum_dim_expr(self, dim: usize) -> Tensor {
        Tensor {
            kind: self.kind,
            shape: self.shape.resized(dim as int, 1),
            op: Rc::new(Op::SumDim(self, dim)),
        }
    }

    #[verifier::opaque]
    pub open spec fn cumsum_expr(self, dim: usize) -> Tensor {
        Tensor { kind: self.kind, shape: self.shape, op: Rc::new(Op::Cumsum(self, dim)) }
    }

    #[verifier::opaque]
    pub open spec fn softmax_expr(self, dim: usize) -> Tensor {
        Tensor { kind: self.kind, shape: self.shape, op: Rc::new(Op::Softmax(self, dim)) }
    }

    #[verifier::opaque]
    pub open spec fn max_expr(self) -> Tensor {
        Tensor { kind: self.kind, shape: Shape::D1(1), op: Rc::new(Op::Max(self)) }
    }

    #[verifier::opaque]
    pub open spec fn triu_expr(self, diagonal: i64) -> Tensor {
        Tensor { kind: self.kind, shape: self.shape, op: Rc::new(Op::Triu(self, diagonal)) }
    }

    #[verifier::opaque]
    pub open spec fn tril_expr(self, diagonal: i64) -> Tensor {
        Tensor { kind: self.kind, shape: self.shape, op: Rc::new(Op::Tril(self, diagonal)) }
    }

    #[verifier::opaque]
    pub open spec fn conv1d_expr(
        self,
        weight: Tensor,
        bias: Option<Tensor>,
        window: Window,
    ) -> Tensor {
        Tensor {
            kind: Kind::Float,
            shape: conv1d_shape(self.shape, weight.shape, window),
            op: Rc::new(Op::Conv1d { x: self, weight, bias, window }),
        }
    }

    #[verifier::opaque]
    pub open spec fn conv_transpose1d_expr(
        self,
        weight: Tensor,
        bias: Option<Tensor>,
        stride: usize,
        padding: usize,
        output_padding: usize,
    ) -> Tensor {
        Tensor {
            kind: Kind::Float,
            shape: conv_transpose1d_shape(
                self.shape,
                weight.shape,
                stride,
                padding,
                output_padding,
            ),
            op: Rc::new(
                Op::ConvTranspose1d { x: self, weight, bias, stride, padding, output_padding },
            ),
        }
    }

    #[verifier::opaque]
    pub open spec fn conv2d_expr(
        self,
        weight: Tensor,
        bias: Option<Tensor>,
        rows: Window,
        columns: Window,
    ) -> Tensor {
        Tensor {
            kind: Kind::Float,
            shape: conv2d_shape(self.shape, weight.shape, rows, columns),
            op: Rc::new(Op::Conv2d { x: self, weight, bias, rows, columns }),
        }
    }

    #[verifier::opaque]
    pub open spec fn layer_norm_expr(self, gamma: Tensor, beta: Tensor) -> Tensor {
        Tensor {
            kind: Kind::Float,
            shape: self.shape,
            op: Rc::new(Op::LayerNorm { x: self, gamma, beta }),
        }
    }

    #[verifier::opaque]
    pub open spec fn embedding_expr(self, weight: Tensor) -> Tensor {
        Tensor {
            kind: Kind::Float,
            shape: Shape::D3(self.shape.at(0), self.shape.at(1), weight.shape.at(1)),
            op: Rc::new(Op::Embedding { ids: self, weight }),
        }
    }

    #[verifier::opaque]
    pub open spec fn dropout_expr(self, probability: Real) -> Tensor {
        Tensor {
            kind: Kind::Float,
            shape: self.shape,
            op: Rc::new(Op::Dropout(self, probability)),
        }
    }

    #[verifier::opaque]
    pub open spec fn guard_expr(self, condition: Tensor) -> Tensor {
        Tensor { kind: self.kind, shape: self.shape, op: Rc::new(Op::Guard(self, condition)) }
    }
}

impl Param {
    /// The parameter as a tensor.
    pub open spec fn value_expr(self) -> Tensor {
        Tensor::leaf_expr(Kind::Float, self.shape, Op::Param(self.path))
    }

    /// The parameter as a tensor.
    pub fn value(&self) -> (r: Tensor)
        ensures
            r == self.value_expr(),
            r.wf(),
            r.kind == Kind::Float,
            r.shape == self.shape,
    {
        proof {
            reveal(Tensor::leaf_expr);
        }
        Tensor { kind: Kind::Float, shape: self.shape, op: Rc::new(Op::Param(self.path.clone())) }
    }

    /// The parameter as a tensor, where there is one.
    pub open spec fn optional_value_expr(param: Option<Param>) -> Option<Tensor> {
        match param {
            Some(p) => Some(p.value_expr()),
            None => None,
        }
    }

    /// The parameter as a tensor, where there is one.
    pub fn optional_value(param: &Option<Param>) -> (r: Option<Tensor>)
        ensures
            r == Param::optional_value_expr(*param),
            r is Some <==> param is Some,
            r matches Some(t) ==> t.wf() && t.kind == Kind::Float && t.shape == param->0.shape,
    {
        match param {
            Some(p) => Some(p.value()),
            None => None,
        }
    }
}

// The operations.

impl Tensor {
    /// The tensor given from outside under a number.
    pub fn input(number: usize, kind: Kind, shape: Shape) -> (r: Tensor)
        ensures
            r == Tensor::input_expr(number, kind, shape),
            r.wf(),
            r.kind == kind,
            r.shape == shape,
    {
        proof {
            reveal(Tensor::leaf_expr);
        }
        Tensor { kind, shape, op: Rc::new(Op::Input(number)) }
    }

    /// A random draw.
    pub fn noise(noise: Noise, shape: Shape) -> (r: Tensor)
        ensures
            r == Tensor::noise_expr(noise, shape),
            r.wf(),
            r.kind == Kind::Float,
            r.shape == shape,
    {
        proof {
            reveal(Tensor::leaf_expr);
        }
        Tensor { kind: Kind::Float, shape, op: Rc::new(Op::Noise(noise)) }
    }

    /// Zeros throughout.
    pub fn zeros(shape: Shape) -> (r: Tensor)
        ensures
            r == Tensor::zeros_expr(shape),
            r.wf(),
            r.kind == Kind::Float,
            r.shape == shape,
    {
        proof {
            reveal(Tensor::leaf_expr);
        }
        Tensor { kind: Kind::Float, shape, op: Rc::new(Op::Zeros) }
    }

    /// Ones throughout.
    pub fn ones(shape: Shape) -> (r: Tensor)
        ensures
            r == Tensor::ones_expr(shape),
            r.wf(),
            r.kind == Kind::Float,
            r.shape == shape,
    {
        proof {
            reveal(Tensor::leaf_expr);
        }
        Tensor { kind: Kind::Float, shape, op: Rc::new(Op::Ones) }
    }

    /// The whole numbers below `n`.
    pub fn arange(n: usize) -> (r: Tensor)
        ensures
            r == Tensor::arange_expr(n),
            r.wf(),
            r.kind == Kind::Int,
            r.shape == Shape::D1(n),
    {
        proof {
            reveal(Tensor::leaf_expr);
        }
        Tensor { kind: Kind::Int, shape: Shape::D1(n), op: Rc::new(Op::Arange) }
    }

    /// A unary operation.
    pub fn unary(self, op: UnaryOp) -> (r: Tensor)
        requires
            self.wf(),
            unary_kind(op, self.kind) is Some,
        ensures
            r == self.unary_expr(op),
            r.wf(),
            Some(r.kind) == unary_kind(op, self.kind),
            r.shape == self.shape,
    {
        proof {
            reveal(Tensor::unary_expr);
        }
        let kind = match op {
            UnaryOp::ToFloat => Kind::Float,
            UnaryOp::ToInt => Kind::Int,
            _ => self.kind,
        };
        Tensor { kind, shape: self.shape, op: Rc::new(Op::Unary(op, self)) }
    }

    /// An operation with a scalar.
    pub fn scalar(self, op: ScalarOp, value: Scalar) -> (r: Tensor)
        requires
            self.wf(),
            scalar_kind(op, self.kind) is Some,
        ensures
            r == self.scalar_expr(op, value),
            r.wf(),
            Some(r.kind) == scalar_kind(op, self.kind),
            r.shape == self.shape,
    {
        proof {
            reveal(Tensor::scalar_expr);
        }
        let kind = match op {
            ScalarOp::GreaterEqual | ScalarOp::LowerEqual | ScalarOp::Equal => Kind::Bool,
            _ => self.kind,
        };
        Tensor { kind, shape: self.shape, op: Rc::new(Op::Scalar(op, self, value)) }
    }

    /// An operation with another tensor.
    pub fn binary(self, op: BinaryOp, other: Tensor) -> (r: Tensor)
        requires
            self.wf(),
            other.wf(),
            self.kind == other.kind,
            binary_kind(op, self.kind) is Some,
            self.shape.joins(other.shape),
        ensures
            r == self.binary_expr(op, other),
            r.wf(),
            Some(r.kind) == binary_kind(op, self.kind),
            r.shape == self.shape.joined(other.shape),
    {
        proof {
            reveal(Tensor::binary_expr);
        }
        let kind = match op {
            BinaryOp::Lower | BinaryOp::GreaterEqual => Kind::Bool,
            _ => self.kind,
        };
        let shape = self.shape.join(&other.shape);
        Tensor { kind, shape, op: Rc::new(Op::Binary(op, self, other)) }
    }

    /// The sum.
    pub fn plus(self, other: Tensor) -> (r: Tensor)
        requires
            self.wf(),
            other.wf(),
            self.kind == other.kind,
            self.kind != Kind::Bool,
            self.shape.joins(other.shape),
        ensures
            r == self.plus_expr(other),
            r.wf(),
            r.kind == self.kind,
            r.shape == self.shape.joined(other.shape),
    {
        self.binary(BinaryOp::Add, other)
    }

    /// The difference.
    pub fn minus(self, other: Tensor) -> (r: Tensor)
        requires
            self.wf(),
            other.wf(),
            self.kind == other.kind,
            self.kind != Kind::Bool,
            self.shape.joins(other.shape),
        ensures
            r == self.minus_expr(other),
            r.wf(),
            r.kind == self.kind,
            r.shape == self.shape.joined(other.shape),
    {
        self.binary(BinaryOp::Sub, other)
    }

    /// The product, element by element.
    pub fn times(self, other: Tensor) -> (r: Tensor)
        requires
            self.wf(),
            other.wf(),
            self.kind == other.kind,
            self.kind != Kind::Bool,
            self.shape.joins(other.shape),
        ensures
            r == self.times_expr(other),
            r.wf(),
            r.kind == self.kind,
            r.shape == self.shape.joined(other.shape),
    {
        self.binary(BinaryOp::Mul, other)
    }

    /// The quotient, element by element.
    pub fn over(self, other: Tensor) -> (r: Tensor)
        requires
            self.wf(),
            other.wf(),
            self.kind == other.kind,
            self.kind != Kind::Bool,
            self.shape.joins(other.shape),
        ensures
            r == self.over_expr(other),
            r.wf(),
            r.kind == self.kind,
            r.shape == self.shape.joined(other.shape),
    {
        self.binary(BinaryOp::Div, other)
    }

    /// The matrix product, batch by batch.
    pub fn matmul(self, other: Tensor) -> (r: Tensor)
        requires
            self.wf(),
            other.wf(),
            self.kind == Kind::Float,
            other.kind == Kind::Float,
            multiplies(self.shape, other.shape),
        ensures
            r == self.matmul_expr(other),
            r.wf(),
            r.kind == Kind::Float,
            r.shape == product_shape(self.shape, other.shape),
    {
        proof {
            reveal(Tensor::matmul_expr);
        }
        let shape = match (self.shape, other.shape) {
            (Shape::D2(rows, _), Shape::D2(_, columns)) => Shape::D2(rows, columns),
            (Shape::D3(n, rows, _), Shape::D3(m, _, columns)) => Shape::D3(
                Shape::join_size(n, m),
                rows,
                columns,
            ),
            (Shape::D4(n, p, rows, _), Shape::D4(m, q, _, columns)) => Shape::D4(
                Shape::join_size(n, m),
                Shape::join_size(p, q),
                rows,
                columns,
            ),
            _ => self.shape,
        };
        Tensor { kind: Kind::Float, shape, op: Rc::new(Op::Matmul(self, other)) }
    }

    /// The same elements under another shape.
    pub fn reshape(self, shape: Shape) -> (r: Tensor)
        requires
            self.wf(),
            shape.count() == self.shape.count(),
        ensures
            r == self.reshape_expr(shape),
            r.wf(),
            r.kind == self.kind,
            r.shape == shape,
    {
        proof {
            reveal(Tensor::reshape_expr);
        }
        Tensor { kind: self.kind, shape, op: Rc::new(Op::Reshape(self)) }
    }

    /// A dimension of size one put in at position `dim`.
    pub fn unsqueeze_dim(self, dim: usize) -> (r: Tensor)
        requires
            self.wf(),
            dim <= self.shape.rank() <= 3,
        ensures
            r == self.unsqueeze_expr(dim as int),
            r.wf(),
            r.kind == self.kind,
            r.shape == self.shape.with_unit(dim as int),
    {
        let shape = self.shape.insert_unit(dim);
        self.reshape(shape)
    }

    /// The dimension `dim`, of size one, taken out.
    pub fn squeeze_dim(self, dim: usize) -> (r: Tensor)
        requires
            self.wf(),
            dim < self.shape.rank(),
            self.shape.rank() >= 2,
            self.at(dim as int) == 1,
        ensures
            r == self.squeeze_expr(dim as int),
            r.wf(),
            r.kind == self.kind,
            r.shape == self.shape.without(dim as int),
    {
        let shape = self.shape.remove_unit(dim);
        self.reshape(shape)
    }

    /// All dimensions of size one taken out, leaving one.
    pub fn squeeze1(self) -> (r: Tensor)
        requires
            self.wf(),
            self.shape.sizes_beyond_one().len() == 1,
        ensures
            r == self.squeeze1_expr(),
            r.wf(),
            r.kind == self.kind,
            r.shape == Shape::D1(self.shape.sizes_beyond_one()[0]),
    {
        let shape = self.shape.beyond_one();
        self.reshape(shape)
    }

    /// All dimensions of size one taken out, leaving two.
    pub fn squeeze2(self) -> (r: Tensor)
        requires
            self.wf(),
            self.shape.sizes_beyond_one().len() == 2,
        ensures
            r == self.squeeze2_expr(),
            r.wf(),
            r.kind == self.kind,
            r.shape == Shape::D2(
                self.shape.sizes_beyond_one()[0],
                self.shape.sizes_beyond_one()[1],
            ),
    {
        let shape = self.shape.beyond_one();
        self.reshape(shape)
    }

    /// Two dimensions exchanged.
    pub fn swap_dims(self, i: usize, j: usize) -> (r: Tensor)
        requires
            self.wf(),
            i < self.shape.rank(),
            j < self.shape.rank(),
        ensures
            r == self.swap_dims_expr(i, j),
            r.wf(),
            r.kind == self.kind,
            r.shape == self.shape.swapped(i as int, j as int),
    {
        proof {
            reveal(Tensor::swap_dims_expr);
        }
        let shape = self.shape.swap(i, j);
        Tensor { kind: self.kind, shape, op: Rc::new(Op::SwapDims(self, i, j)) }
    }

    /// One dimension reversed.
    pub fn flip(self, dim: usize) -> (r: Tensor)
        requires
            self.wf(),
            dim < self.shape.rank(),
        ensures
            r == self.flip_expr(dim),
            r.wf(),
            r.kind == self.kind,
            r.shape == self.shape,
    {
        proof {
            reveal(Tensor::flip_expr);
        }
        Tensor { kind: self.kind, shape: self.shape, op: Rc::new(Op::Flip(self, dim)) }
    }

    /// Zeros put before and after one dimension.
    pub fn pad(self, dim: usize, before: usize, after: usize) -> (r: Tensor)
        requires
            self.wf(),
            self.kind != Kind::Bool,
            dim < self.shape.rank(),
            self.at(dim as int) + before + after <= usize::MAX,
        ensures
            r == self.pad_expr(dim, before, after),
            r.wf(),
            r.kind == self.kind,
            r.shape == self.shape.resized(
                dim as int,
                (self.at(dim as int) + before + after) as usize,
            ),
    {
        proof {
            reveal(Tensor::pad_expr);
        }
        let shape = self.shape.resize(dim, self.shape.dim(dim) + before + after);
        Tensor { kind: self.kind, shape, op: Rc::new(Op::Pad(self, dim, before, after)) }
    }

    /// The indices from `start` to before `end` along one dimension.
    pub fn slice(self, dim: usize, start: usize, end: usize) -> (r: Tensor)
        requires
            self.wf(),
            dim < self.shape.rank(),
            start <= end <= self.at(dim as int),
        ensures
            r == self.slice_expr(dim, start, end),
            r.wf(),
            r.kind == self.kind,
            r.shape == self.shape.resized(dim as int, (end - start) as usize),
    {
        proof {
            reveal(Tensor::slice_expr);
        }
        let shape = self.shape.resize(dim, end - start);
        Tensor { kind: self.kind, shape, op: Rc::new(Op::Slice(self, dim, start, end)) }
    }

    /// One index along one dimension overwritten by a scalar.
    pub fn slice_fill(self, dim: usize, index: usize, value: Scalar) -> (r: Tensor)
        requires
            self.wf(),
            dim < self.shape.rank(),
            index < self.at(dim as int),
        ensures
            r == self.slice_fill_expr(dim, index, value),
            r.wf(),
            r.kind == self.kind,
            r.shape == self.shape,
    {
        proof {
            reveal(Tensor::slice_fill_expr);
        }
        Tensor {
            kind: self.kind,
            shape: self.shape,
            op: Rc::new(Op::SliceFill(self, dim, index, value)),
        }
    }

    /// One index along one dimension overwritten by `values`.
    pub fn slice_assign(self, dim: usize, index: usize, values: Tensor) -> (r: Tensor)
        requires
            self.wf(),
            values.wf(),
            values.kind == self.kind,
            dim < self.shape.rank(),
            index < self.at(dim as int),
            values.shape == self.shape.resized(dim as int, 1),
        ensures
            r == self.slice_assign_expr(dim, index, values),
            r.wf(),
            r.kind == self.kind,
            r.shape == self.shape,
    {
        proof {
            reveal(Tensor::slice_assign_expr);
        }
        Tensor {
            kind: self.kind,
            shape: self.shape,
            op: Rc::new(Op::SliceAssign(self, dim, index, values)),
        }
    }

    /// This tensor and then the other along one dimension.
    pub fn cat(self, other: Tensor, dim: usize) -> (r: Tensor)
        requires
            self.wf(),
            other.wf(),
            self.kind == other.kind,
            dim < self.shape.rank(),
            agree_beyond(self.shape, other.shape, dim as int),
            self.at(dim as int) + other.at(dim as int) <= usize::MAX,
        ensures
            r == self.cat_expr(other, dim),
            r.wf(),
            r.kind == self.kind,
            r.shape == self.shape.resized(
                dim as int,
                (self.at(dim as int) + other.at(dim as int)) as usize,
            ),
    {
        proof {
            reveal(Tensor::cat_expr);
        }
        let shape = self.shape.resize(dim, self.shape.dim(dim) + other.shape.dim(dim));
        Tensor { kind: self.kind, shape, op: Rc::new(Op::Cat(self, other, dim)) }
    }

    /// Elements picked along one dimension.
    pub fn gather(self, dim: usize, ids: Tensor) -> (r: Tensor)
        requires
            self.wf(),
            ids.wf(),
            ids.kind == Kind::Int,
            dim < self.shape.rank(),
            agree_beyond(self.shape, ids.shape, dim as int),
        ensures
            r == self.gather_expr(dim, ids),
            r.wf(),
            r.kind == self.kind,
            r.shape == ids.shape,
    {
        proof {
            reveal(Tensor::gather_expr);
        }
        Tensor { kind: self.kind, shape: ids.shape, op: Rc::new(Op::Gather(self, dim, ids)) }
    }

    /// The scalar where the mask holds.
    pub fn mask_fill(self, mask: Tensor, value: Scalar) -> (r: Tensor)
        requires
            self.wf(),
            mask.wf(),
            mask.kind == Kind::Bool,
            self.shape.joins(mask.shape),
            self.shape.joined(mask.shape) == self.shape,
        ensures
            r == self.mask_fill_expr(mask, value),
            r.wf(),
            r.kind == self.kind,
            r.shape == self.shape,
    {
        proof {
            reveal(Tensor::mask_fill_expr);
        }
        Tensor {
            kind: self.kind,
            shape: self.shape,
            op: Rc::new(Op::MaskFill(self, mask, value)),
        }
    }

    /// The other tensor's elements where the mask holds.
    pub fn mask_where(self, mask: Tensor, other: Tensor) -> (r: Tensor)
        requires
            self.wf(),
            mask.wf(),
            other.wf(),
            mask.kind == Kind::Bool,
            other.kind == self.kind,
            other.shape == self.shape,
            self.shape.joins(mask.shape),
            self.shape.joined(mask.shape) == self.shape,
        ensures
            r == self.mask_where_expr(mask, other),
            r.wf(),
            r.kind == self.kind,
            r.shape == self.shape,
    {
        proof {
            reveal(Tensor::mask_where_expr);
        }
        Tensor {
            kind: self.kind,
            shape: self.shape,
            op: Rc::new(Op::MaskWhere(self, mask, other)),
        }
    }

    /// Sums along one dimension, which is left with size one.
    pub fn sum_dim(self, dim: usize) -> (r: Tensor)
        requires
            self.wf(),
            self.kind != Kind::Bool,
            dim < self.shape.rank(),
        ensures
            r == self.sum_dim_expr(dim),
            r.wf(),
            r.kind == self.kind,
            r.shape == self.shape.resized(dim as int, 1),
    {
        proof {
            reveal(Tensor::sum_dim_expr);
        }
        let shape = self.shape.resize(dim, 1);
        Tensor { kind: self.kind, shape, op: Rc::new(Op::SumDim(self, dim)) }
    }

    /// Running sums along one dimension.
    pub fn cumsum(self, dim: usize) -> (r: Tensor)
        requires
            self.wf(),
            self.kind != Kind::Bool,
            dim < self.shape.rank(),
        ensures
            r == self.cumsum_expr(dim),
            r.wf(),
            r.kind == self.kind,
            r.shape == self.shape,
    {
        proof {
            reveal(Tensor::cumsum_expr);
        }
        Tensor { kind: self.kind, shape: self.shape, op: Rc::new(Op::Cumsum(self, dim)) }
    }

    /// Softmax along one dimension.
    pub fn softmax(self, dim: usize) -> (r: Tensor)
        requires
            self.wf(),
            self.kind == Kind::Float,
            dim < self.shape.rank(),
        ensures
            r == self.softmax_expr(dim),
            r.wf(),
            r.kind == self.kind,
            r.shape == self.shape,
    {
        proof {
            reveal(Tensor::softmax_expr);
        }
        Tensor { kind: self.kind, shape: self.shape, op: Rc::new(Op::Softmax(self, dim)) }
    }

    /// The greatest element.
    pub fn max(self) -> (r: Tensor)
        requires
            self.wf(),
            self.kind != Kind::Bool,
        ensures
            r == self.max_expr(),
            r.wf(),
            r.kind == self.kind,
            r.shape == Shape::D1(1),
    {
        proof {
            reveal(Tensor::max_expr);
        }
        Tensor { kind: self.kind, shape: Shape::D1(1), op: Rc::new(Op::Max(self)) }
    }

    /// Zero below a diagonal.
    pub fn triu(self, diagonal: i64) -> (r: Tensor)
        requires
            self.wf(),
            self.kind != Kind::Bool,
            self.shape.rank() >= 2,
        ensures
            r == self.triu_expr(diagonal),
            r.wf(),
            r.kind == self.kind,
            r.shape == self.shape,
    {
        proof {
            reveal(Tensor::triu_expr);
        }
        Tensor { kind: self.kind, shape: self.shape, op: Rc::new(Op::Triu(self, diagonal)) }
    }

    /// Zero above a diagonal.
    pub fn tril(self, diagonal: i64) -> (r: Tensor)
        requires
            self.wf(),
            self.kind != Kind::Bool,
            self.shape.rank() >= 2,
        ensures
            r == self.tril_expr(diagonal),
            r.wf(),
            r.kind == self.kind,
            r.shape == self.shape,
    {
        proof {
            reveal(Tensor::tril_expr);
        }
        Tensor { kind: self.kind, shape: self.shape, op: Rc::new(Op::Tril(self, diagonal)) }
    }

    /// A one-dimensional convolution.
    pub fn conv1d(self, weight: Tensor, bias: Option<Tensor>, window: Window) -> (r: Tensor)
        requires
            self.wf(),
            weight.wf(),
            bias matches Some(b) ==> b.wf(),
            conv1d_takes(self, weight, bias, window),
        ensures
            r == self.conv1d_expr(weight, bias, window),
            r.wf(),
            r.kind == Kind::Float,
            r.shape == conv1d_shape(self.shape, weight.shape, window),
    {
        proof {
            reveal(Tensor::conv1d_expr);
        }
        let length = window.count_steps(self.shape.dim(2), weight.shape.dim(2));
        let shape = Shape::D3(self.shape.dim(0), weight.shape.dim(0), length);
        Tensor {
            kind: Kind::Float,
            shape,
            op: Rc::new(Op::Conv1d { x: self, weight, bias, window }),
        }
    }

    /// A one-dimensional transposed convolution.
    pub fn conv_transpose1d(
        self,
        weight: Tensor,
        bias: Option<Tensor>,
        stride: usize,
        padding: usize,
        output_padding: usize,
    ) -> (r: Tensor)
        requires
            self.wf(),
            weight.wf(),
            bias matches Some(b) ==> b.wf(),
            conv_transpose1d_takes(self, weight, bias, stride, padding, output_padding),
        ensures
            r == self.conv_transpose1d_expr(weight, bias, stride, padding, output_padding),
            r.wf(),
            r.kind == Kind::Float,
            r.shape == conv_transpose1d_shape(
                self.shape,
                weight.shape,
                stride,
                padding,
                output_padding,
            ),
    {
        proof {
            reveal(Tensor::conv_transpose1d_expr);
            let steps = self.at(2) - 1;
            assert(0 <= steps * stride) by (nonlinear_arith)
                requires
                    steps >= 0,
                    stride >= 1,
            ;
        }
        let spread: usize = (self.shape.dim(2) - 1) * stride + weight.shape.dim(2) + output_padding;
        let length: usize = spread - padding - padding;
        let shape = Shape::D3(self.shape.dim(0), weight.shape.dim(1), length);
        Tensor {
            kind: Kind::Float,
            shape,
            op: Rc::new(
                Op::ConvTranspose1d { x: self, weight, bias, stride, padding, output_padding },
            ),
        }
    }

    /// A two-dimensional convolution.
    pub fn conv2d(
        self,
        weight: Tensor,
        bias: Option<Tensor>,
        rows: Window,
        columns: Window,
    ) -> (r: Tensor)
        requires
            self.wf(),
            weight.wf(),
            bias matches Some(b) ==> b.wf(),
            conv2d_takes(self, weight, bias, rows, columns),
        ensures
            r == self.conv2d_expr(weight, bias, rows, columns),
            r.wf(),
            r.kind == Kind::Float,
            r.shape == conv2d_shape(self.shape, weight.shape, rows, columns),
    {
        proof {
            reveal(Tensor::conv2d_expr);
        }
        let height = rows.count_steps(self.shape.dim(2), weight.shape.dim(2));
        let width = columns.count_steps(self.shape.dim(3), weight.shape.dim(3));
        let shape = Shape::D4(self.shape.dim(0), weight.shape.dim(0), height, width);
        Tensor {
            kind: Kind::Float,
            shape,
            op: Rc::new(Op::Conv2d { x: self, weight, bias, rows, columns }),
        }
    }

    /// Normalisation over the last dimension.
    pub fn layer_norm(self, gamma: Tensor, beta: Tensor) -> (r: Tensor)
        requires
            self.wf(),
            gamma.wf(),
            beta.wf(),
            self.kind == Kind::Float,
            gamma.kind == Kind::Float,
            beta.kind == Kind::Float,
            gamma.shape == Shape::D1(self.at(self.shape.rank() - 1)),
            beta.shape == gamma.shape,
        ensures
            r == self.layer_norm_expr(gamma, beta),
            r.wf(),
            r.kind == Kind::Float,
            r.shape == self.shape,
    {
        proof {
            reveal(Tensor::layer_norm_expr);
        }
        Tensor {
            kind: Kind::Float,
            shape: self.shape,
            op: Rc::new(Op::LayerNorm { x: self, gamma, beta }),
        }
    }

    /// Rows of `weight` picked by this tensor of indices.
    pub fn embedding(self, weight: Tensor) -> (r: Tensor)
        requires
            self.wf(),
            weight.wf(),
            self.kind == Kind::Int,
            weight.kind == Kind::Float,
            self.shape.rank() == 2,
            weight.shape.rank() == 2,
        ensures
            r == self.embedding_expr(weight),
            r.wf(),
            r.kind == Kind::Float,
            r.shape == Shape::D3(self.at(0), self.at(1), weight.at(1)),
    {
        proof {
            reveal(Tensor::embedding_expr);
        }
        let shape = Shape::D3(self.shape.dim(0), self.shape.dim(1), weight.shape.dim(1));
        Tensor { kind: Kind::Float, shape, op: Rc::new(Op::Embedding { ids: self, weight }) }
    }

    /// Elements dropped at random while training.
    pub fn dropout(self, probability: Real) -> (r: Tensor)
        requires
            self.wf(),
            self.kind == Kind::Float,
        ensures
            r == self.dropout_expr(probability),
            r.wf(),
            r.kind == Kind::Float,
            r.shape == self.shape,
    {
        proof {
            reveal(Tensor::dropout_expr);
        }
        Tensor {
            kind: Kind::Float,
            shape: self.shape,
            op: Rc::new(Op::Dropout(self, probability)),
        }
    }

    /// This tensor, provided that every element of `condition` holds.
    pub fn guard(self, condition: Tensor) -> (r: Tensor)
        requires
            self.wf(),
            condition.wf(),
            condition.kind == Kind::Bool,
        ensures
            r == self.guard_expr(condition),
            r.wf(),
            r.kind == self.kind,
            r.shape == self.shape,
    {
        proof {
            reveal(Tensor::guard_expr);
        }
        Tensor { kind: self.kind, shape: self.shape, op: Rc::new(Op::Guard(self, condition)) }
    }
}

impl Window {
    /// Whether the filter fits at least once.
    pub fn accepts(&self, size: usize, kernel: usize) -> (r: bool)
        ensures
            r == self.fits(size, kernel),
    {
        if self.stride == 0 || self.dilation == 0 || kernel == 0 || !sum_fits(
            size,
            self.before,
            self.after,
        ) {
            return false;
        }
        match self.dilation.checked_mul(kernel - 1) {
            Some(reach) => reach < size + self.before + self.after,
            None => false,
        }
    }

    /// The number of positions at which a filter of `kernel` taps is applied.
    pub fn count_steps(&self, size: usize, kernel: usize) -> (r: usize)
        requires
            self.fits(size, kernel),
        ensures
            r == self.steps(size, kernel),
            1 <= r <= size + self.before + self.after,
    {
        proof {
            let taps = kernel - 1;
            assert(0 <= self.dilation * taps) by (nonlinear_arith)
                requires
                    taps >= 0,
            ;
            let free = size + self.before + self.after - self.reach(kernel);
            assert(0 <= free / (self.stride as int) <= free) by (nonlinear_arith)
                requires
                    free >= 0,
                    self.stride >= 1,
            ;
        }
        let free: usize = size + self.before + self.after - self.dilation * (kernel - 1) - 1;
        free / self.stride + 1
    }
}

} // verus!

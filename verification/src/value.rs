//! The values of tensors, as real numbers.
//!
//! What a recipe yields is told here in real arithmetic, without rounding, and with nothing dropped
//! at random. An index in a dimension of size one is taken as zero, so that a tensor has values at
//! all indices that it may be stretched to.

use crate::number::Scalar;
use crate::param::Path;
use crate::shape::Shape;
use crate::tensor::{BinaryOp, Noise, Op, ScalarOp, Tensor, UnaryOp};
use vstd::prelude::*;

verus! {

/// What the recipes are computed from: the tensors given and drawn, the learned parameters, and the
/// functions of real numbers.
pub struct Reading {
    pub input: spec_fn(usize, Seq<int>) -> real,
    pub param: spec_fn(Path, Seq<int>) -> real,
    pub noise: spec_fn(Noise, Seq<int>) -> real,
    pub exp: spec_fn(real) -> real,
    pub log: spec_fn(real) -> real,
    pub sqrt: spec_fn(real) -> real,
    pub tanh: spec_fn(real) -> real,
    pub sigmoid: spec_fn(real) -> real,
    pub gelu: spec_fn(real) -> real,
    /// The first number to the power of the second.
    pub power: spec_fn(real, real) -> real,
}

impl Reading {
    /// What the exponential function has: positive values, one at zero, less at negative numbers,
    /// and at opposite numbers values that multiply to one.
    pub open spec fn exponential(self) -> bool {
        &&& (self.exp)(0real) == 1real
        &&& forall|a: real| #[trigger] (self.exp)(a) > 0real
        &&& forall|a: real| a < 0real ==> #[trigger] (self.exp)(a) < 1real
        &&& forall|a: real| #[trigger] (self.exp)(a) * (self.exp)(-a) == 1real
    }

    /// What the logarithm has: the exponential function undoes it.
    pub open spec fn logarithmic(self) -> bool {
        forall|a: real| a > 0real ==> (self.exp)(#[trigger] (self.log)(a)) == a
    }

    /// What the square root has.
    pub open spec fn rooted(self) -> bool {
        forall|a: real|
            a >= 0real ==> (#[trigger] (self.sqrt)(a)) >= 0real && (self.sqrt)(a) * (self.sqrt)(a)
                == a
    }

    /// What the hyperbolic tangent has: values between minus one and one.
    pub open spec fn squashing(self) -> bool {
        forall|a: real| -1real <= #[trigger] (self.tanh)(a) <= 1real
    }

    /// Whether the other is the same but for what is drawn.
    pub open spec fn same_but_noise(self, other: Reading) -> bool {
        &&& self.input == other.input
        &&& self.param == other.param
        &&& self.exp == other.exp
        &&& self.log == other.log
        &&& self.sqrt == other.sqrt
        &&& self.tanh == other.tanh
        &&& self.sigmoid == other.sigmoid
        &&& self.gelu == other.gelu
        &&& self.power == other.power
    }
}

/// One for a truth, zero for a falsehood.
pub open spec fn truth(b: bool) -> real {
    if b {
        1real
    } else {
        0real
    }
}

/// The greater of two numbers.
pub open spec fn greater(a: real, b: real) -> real {
    if a < b {
        b
    } else {
        a
    }
}

/// The least whole number that is not below.
pub open spec fn ceiling(a: real) -> int {
    -(-a).floor()
}

/// The number without its fraction.
pub open spec fn truncated(a: real) -> int {
    if a >= 0real {
        a.floor()
    } else {
        ceiling(a)
    }
}

/// The value of a scalar.
pub open spec fn number(scalar: Scalar, m: Reading) -> real
    decreases scalar,
{
    match scalar {
        Scalar::Literal(literal) => crate::number::double(literal.bits),
        Scalar::Count(n) => n as int as real,
        Scalar::SingleCount(n) => n as int as real,
        Scalar::Neg(a) => -number(*a, m),
        Scalar::Sqrt(a) => (m.sqrt)(number(*a, m)),
        Scalar::Exp(a) => (m.exp)(number(*a, m)),
        Scalar::Ln(a) => (m.log)(number(*a, m)),
        Scalar::Sub(a, b) => number(*a, m) - number(*b, m),
        Scalar::Mul(a, b) => number(*a, m) * number(*b, m),
        Scalar::Pow(a, exponent) => (m.power)(
            number(*a, m),
            crate::number::double(exponent.bits),
        ),
    }
}

pub open spec fn unary_value(op: UnaryOp, a: real, m: Reading) -> real {
    match op {
        UnaryOp::Exp => (m.exp)(a),
        UnaryOp::Log => (m.log)(a),
        UnaryOp::Log1p => (m.log)(1real + a),
        UnaryOp::Sqrt => (m.sqrt)(a),
        UnaryOp::Tanh => (m.tanh)(a),
        UnaryOp::Sigmoid => (m.sigmoid)(a),
        UnaryOp::Relu => greater(a, 0real),
        UnaryOp::Gelu => (m.gelu)(a),
        UnaryOp::Softplus => (m.log)((m.exp)(a) + 1real),
        UnaryOp::Ceil => ceiling(a) as real,
        UnaryOp::Neg => -a,
        UnaryOp::Abs => greater(a, -a),
        UnaryOp::Not => truth(a == 0real),
        UnaryOp::ToFloat => a,
        UnaryOp::ToInt => truncated(a) as real,
    }
}

pub open spec fn scalar_value(op: ScalarOp, a: real, s: real, m: Reading) -> real {
    match op {
        ScalarOp::Add => a + s,
        ScalarOp::Sub => a - s,
        ScalarOp::SubFrom => s - a,
        ScalarOp::Mul => a * s,
        ScalarOp::Div => a / s,
        ScalarOp::Powi | ScalarOp::Powf => if s == 2real {
            a * a
        } else {
            (m.power)(a, s)
        },
        ScalarOp::ClampMin => greater(a, s),
        ScalarOp::LeakyRelu => if a < 0real {
            s * a
        } else {
            a
        },
        ScalarOp::GreaterEqual => truth(a >= s),
        ScalarOp::LowerEqual => truth(a <= s),
        ScalarOp::Equal => truth(a == s),
    }
}

pub open spec fn binary_value(op: BinaryOp, a: real, b: real) -> real {
    match op {
        BinaryOp::Add => a + b,
        BinaryOp::Sub => a - b,
        BinaryOp::Mul => a * b,
        BinaryOp::Div => a / b,
        BinaryOp::Lower => truth(a < b),
        BinaryOp::GreaterEqual => truth(a >= b),
        BinaryOp::And => truth(a != 0real && b != 0real),
    }
}

/// The epsilon of normalisations, 1e-5.
pub const NORM_EPSILON: u64 = 0x3EE4_F8B5_88E3_68F1;

/// An index with two of its entries exchanged.
pub open spec fn swapped(idx: Seq<int>, i: int, j: int) -> Seq<int> {
    Seq::new(
        idx.len(),
        |d: int|
            if d == i {
                idx[j]
            } else if d == j {
                idx[i]
            } else {
                idx[d]
            },
    )
}

/// The value of `t` at an index.
pub open spec fn value(t: Tensor, at: Seq<int>, m: Reading) -> real
    decreases t, 5nat, 0nat,
{
    let idx = crate::element::unstretched(t.shape, at);
    match *t.op {
        Op::Input(n) => (m.input)(n, idx),
        Op::Param(path) => (m.param)(path, idx),
        Op::Noise(noise) => (m.noise)(noise, idx),
        Op::Zeros => 0real,
        Op::Ones => 1real,
        Op::Arange => idx[0] as real,
        Op::Unary(op, x) => unary_value(op, value(x, idx, m), m),
        Op::Scalar(op, x, s) => scalar_value(op, value(x, idx, m), number(s, m), m),
        Op::Binary(op, x, y) => binary_value(op, value(x, idx, m), value(y, idx, m)),
        Op::Matmul(x, _) => total(t, 0, x.shape.at(x.shape.rank() - 1) as nat, idx, m),
        Op::Reshape(x) => value(
            x,
            crate::element::unflat(x.shape, crate::element::flat(t.shape, idx)),
            m,
        ),
        Op::SwapDims(x, i, j) => value(x, swapped(idx, i as int, j as int), m),
        Op::Flip(x, dim) => value(
            x,
            idx.update(dim as int, x.shape.at(dim as int) - 1 - idx[dim as int]),
            m,
        ),
        Op::Pad(x, dim, before, _) => if 0 <= idx[dim as int] - before < x.shape.at(dim as int) {
            value(x, idx.update(dim as int, idx[dim as int] - before), m)
        } else {
            0real
        },
        Op::Slice(x, dim, start, _) => value(
            x,
            idx.update(dim as int, idx[dim as int] + start),
            m,
        ),
        Op::SliceFill(x, dim, index, s) => if idx[dim as int] == index {
            number(s, m)
        } else {
            value(x, idx, m)
        },
        Op::SliceAssign(x, dim, index, y) => if idx[dim as int] == index {
            value(y, idx, m)
        } else {
            value(x, idx, m)
        },
        Op::Cat(x, y, dim) => if idx[dim as int] < x.shape.at(dim as int) {
            value(x, idx, m)
        } else {
            value(y, idx.update(dim as int, idx[dim as int] - x.shape.at(dim as int)), m)
        },
        Op::Gather(x, dim, ids) => value(
            x,
            idx.update(dim as int, value(ids, idx, m).floor()),
            m,
        ),
        Op::MaskFill(x, mask, s) => if value(mask, idx, m) != 0real {
            number(s, m)
        } else {
            value(x, idx, m)
        },
        Op::MaskWhere(x, mask, y) => if value(mask, idx, m) != 0real {
            value(y, idx, m)
        } else {
            value(x, idx, m)
        },
        Op::SumDim(x, dim) => total(t, 0, x.shape.at(dim as int) as nat, idx, m),
        Op::Cumsum(_, dim) => total(t, 0, (idx[dim as int] + 1) as nat, idx, m),
        Op::Softmax(x, dim) => (m.exp)(value(x, idx, m)) / total(
            t,
            0,
            x.shape.at(dim as int) as nat,
            idx,
            m,
        ),
        Op::Max(x) => greatest(x, x.shape.count() as nat, m),
        Op::Triu(x, diagonal) => {
            let r = x.shape.rank();
            if idx[r - 1] - idx[r - 2] >= diagonal {
                value(x, idx, m)
            } else {
                0real
            }
        },
        Op::Tril(x, diagonal) => {
            let r = x.shape.rank();
            if idx[r - 1] - idx[r - 2] <= diagonal {
                value(x, idx, m)
            } else {
                0real
            }
        },
        Op::Conv1d { x, weight, bias, window } => total(
            t,
            0,
            (weight.shape.at(1) * weight.shape.at(2)) as nat,
            idx,
            m,
        ) + match bias {
            Some(b) => value(b, seq![idx[1]], m),
            None => 0real,
        },
        Op::ConvTranspose1d { x, weight, bias, stride, padding, output_padding } => total(
            t,
            0,
            (weight.shape.at(0) * weight.shape.at(2)) as nat,
            idx,
            m,
        ) + match bias {
            Some(b) => value(b, seq![idx[1]], m),
            None => 0real,
        },
        Op::Conv2d { x, weight, bias, rows, columns } => total(
            t,
            0,
            (weight.shape.at(1) * (weight.shape.at(2) * weight.shape.at(3))) as nat,
            idx,
            m,
        ) + match bias {
            Some(b) => value(b, seq![idx[1]], m),
            None => 0real,
        },
        Op::LayerNorm { x, gamma, beta } => {
            let last = x.shape.rank() - 1;
            let n = x.shape.at(last);
            let mean = total(t, 0, n as nat, idx, m) / (n as int as real);
            let spread = total(t, 1, n as nat, idx, m) / (n as int as real);
            (value(x, idx, m) - mean) / (m.sqrt)(spread + crate::number::double(NORM_EPSILON))
                * value(gamma, seq![idx[last]], m) + value(beta, seq![idx[last]], m)
        },
        Op::Embedding { ids, weight } => if crate::element::within(t.shape, idx) {
            value(weight, seq![value(ids, seq![idx[0], idx[1]], m).floor(), idx[2]], m)
        } else {
            0real
        },
        Op::Dropout(x, _) => value(x, idx, m),
        Op::Guard(x, _) => value(x, idx, m),
    }
}

/// Whether a filter meets `size` positions at `place`, which counts from the padding.
pub open spec fn meets(size: usize, place: int, before: usize) -> bool {
    0 <= place - before < size
}

/// What is added `k`-th for the value of `t` at an index. Of convolutions that is nothing beyond
/// the ends of what they yield. Of normalisations the first sum is that of the values, the second
/// that of their squared distances from the mean.
pub open spec fn summand(t: Tensor, sum: nat, k: int, idx: Seq<int>, m: Reading) -> real
    decreases t, 2 * sum, 0nat,
{
    match *t.op {
        Op::Matmul(x, y) => {
            let r = x.shape.rank();
            value(x, idx.update(r - 1, k), m) * value(y, idx.update(r - 2, k), m)
        },
        Op::SumDim(x, dim) => value(x, idx.update(dim as int, k), m),
        Op::Cumsum(x, dim) => value(x, idx.update(dim as int, k), m),
        Op::Softmax(x, dim) => (m.exp)(value(x, idx.update(dim as int, k), m)),
        Op::Conv1d { x, weight, bias, window } => {
            let taps = weight.shape.at(2) as int;
            let channel = k / taps;
            let tap = k % taps;
            let group = idx[1] / (weight.shape.at(0) as int / window.groups as int);
            let place = idx[2] * window.stride + tap * window.dilation;
            if crate::element::within(t.shape, idx) && meets(x.shape.at(2), place, window.before) {
                value(weight, seq![idx[1], channel, tap], m) * value(
                    x,
                    seq![idx[0], group * weight.shape.at(1) + channel, place - window.before],
                    m,
                )
            } else {
                0real
            }
        },
        Op::ConvTranspose1d { x, weight, bias, stride, padding, output_padding } => {
            let taps = weight.shape.at(2) as int;
            let channel = k / taps;
            let tap = k % taps;
            let place = idx[2] + padding - tap;
            if crate::element::within(t.shape, idx) && place % (stride as int) == 0 && meets(
                x.shape.at(2),
                place / (stride as int),
                0,
            ) {
                value(weight, seq![channel, idx[1], tap], m) * value(
                    x,
                    seq![idx[0], channel, place / (stride as int)],
                    m,
                )
            } else {
                0real
            }
        },
        Op::Conv2d { x, weight, bias, rows, columns } => {
            let taps = weight.shape.at(2) * weight.shape.at(3);
            let channel = k / taps;
            let row = (k % taps) / weight.shape.at(3) as int;
            let column = (k % taps) % weight.shape.at(3) as int;
            let group = idx[1] / (weight.shape.at(0) as int / rows.groups as int);
            let down = idx[2] * rows.stride + row * rows.dilation;
            let across = idx[3] * columns.stride + column * columns.dilation;
            if crate::element::within(t.shape, idx) && meets(
                x.shape.at(2),
                down,
                rows.before,
            ) && meets(
                x.shape.at(3),
                across,
                columns.before,
            ) {
                value(weight, seq![idx[1], channel, row, column], m) * value(
                    x,
                    seq![
                        idx[0],
                        group * weight.shape.at(1) + channel,
                        down - rows.before,
                        across - columns.before,
                    ],
                    m,
                )
            } else {
                0real
            }
        },
        Op::LayerNorm { x, gamma, beta } => {
            let last = x.shape.rank() - 1;
            let n = x.shape.at(last);
            let v = value(x, idx.update(last, k), m);
            if sum == 0 {
                v
            } else {
                let mean = total(t, 0, n as nat, idx, m) / (n as int as real);
                (v - mean) * (v - mean)
            }
        },
        _ => 0real,
    }
}

/// The first `n` summands added up.
pub open spec fn total(t: Tensor, sum: nat, n: nat, idx: Seq<int>, m: Reading) -> real
    decreases t, 2 * sum + 1, n,
{
    if n == 0 {
        0real
    } else {
        total(t, sum, (n - 1) as nat, idx, m) + summand(t, sum, n - 1, idx, m)
    }
}

/// The greatest of the first `n` values in row-major order.
pub open spec fn greatest(x: Tensor, n: nat, m: Reading) -> real
    decreases x, 6nat, n,
{
    if n == 0 {
        0real
    } else {
        let last = value(x, crate::element::unflat(x.shape, n - 1), m);
        if n == 1 {
            last
        } else {
            greater(greatest(x, (n - 1) as nat, m), last)
        }
    }
}

// The values of what the operations yield.

/// An index is not changed by taking it to a shape again.
proof fn lemma_unstretched_twice(shape: Shape, idx: Seq<int>)
    ensures
        crate::element::unstretched(shape, crate::element::unstretched(shape, idx))
            == crate::element::unstretched(shape, idx),
{
    assert(crate::element::unstretched(shape, crate::element::unstretched(shape, idx))
        =~= crate::element::unstretched(shape, idx));
}

/// A tensor has at an index the value at the index that it is stretched from.
pub proof fn lemma_stretched(x: Tensor, idx: Seq<int>, other: Seq<int>, m: Reading)
    requires
        crate::element::unstretched(x.shape, idx) == crate::element::unstretched(x.shape, other),
    ensures
        value(x, idx, m) == value(x, other, m),
{
}

pub broadcast proof fn lemma_leaf_value(
    kind: crate::tensor::Kind,
    shape: Shape,
    op: Op,
    idx: Seq<int>,
    m: Reading,
)
    ensures
        op is Zeros ==> #[trigger] value(Tensor::leaf_expr(kind, shape, op), idx, m) == 0real,
        op is Ones ==> value(Tensor::leaf_expr(kind, shape, op), idx, m) == 1real,
{
    reveal(Tensor::leaf_expr);
}

pub broadcast proof fn lemma_unary_value(x: Tensor, op: UnaryOp, idx: Seq<int>, m: Reading)
    ensures
        #[trigger] value(x.unary_expr(op), idx, m) == unary_value(op, value(x, idx, m), m),
{
    reveal(Tensor::unary_expr);
    lemma_unstretched_twice(x.shape, idx);
    lemma_stretched(x, crate::element::unstretched(x.shape, idx), idx, m);
}

pub broadcast proof fn lemma_scalar_value(
    x: Tensor,
    op: ScalarOp,
    s: Scalar,
    idx: Seq<int>,
    m: Reading,
)
    ensures
        #[trigger] value(x.scalar_expr(op, s), idx, m) == scalar_value(
            op,
            value(x, idx, m),
            number(s, m),
            m,
        ),
{
    reveal(Tensor::scalar_expr);
    lemma_unstretched_twice(x.shape, idx);
    lemma_stretched(x, crate::element::unstretched(x.shape, idx), idx, m);
}

pub broadcast proof fn lemma_binary_value(
    x: Tensor,
    op: BinaryOp,
    y: Tensor,
    idx: Seq<int>,
    m: Reading,
)
    requires
        x.shape.rank() == y.shape.rank(),
    ensures
        #[trigger] value(x.binary_expr(op, y), idx, m) == binary_value(
            op,
            value(x, idx, m),
            value(y, idx, m),
        ),
{
    reveal(Tensor::binary_expr);
    let inner = crate::element::unstretched(x.shape.joined(y.shape), idx);
    assert(crate::element::unstretched(x.shape, inner) =~= crate::element::unstretched(
        x.shape,
        idx,
    ));
    assert(crate::element::unstretched(y.shape, inner) =~= crate::element::unstretched(
        y.shape,
        idx,
    ));
    lemma_stretched(x, inner, idx, m);
    lemma_stretched(y, inner, idx, m);
}

/// What the elementwise operations yield.
pub broadcast group group_elementwise {
    lemma_leaf_value,
    lemma_unary_value,
    lemma_scalar_value,
    lemma_binary_value,
}

/// A range of indices shows the values further along.
pub proof fn lemma_slice_value(
    x: Tensor,
    dim: usize,
    start: usize,
    end: usize,
    idx: Seq<int>,
    m: Reading,
)
    requires
        crate::element::within(x.slice_expr(dim, start, end).shape, idx),
    ensures
        value(x.slice_expr(dim, start, end), idx, m) == value(
            x,
            idx.update(dim as int, idx[dim as int] + start),
            m,
        ),
{
    reveal(Tensor::slice_expr);
    crate::element::lemma_unstretched(x.slice_expr(dim, start, end).shape, idx);
}

/// Two tensors one after the other.
pub proof fn lemma_cat_value(x: Tensor, y: Tensor, dim: usize, idx: Seq<int>, m: Reading)
    requires
        crate::element::within(x.cat_expr(y, dim).shape, idx),
    ensures
        value(x.cat_expr(y, dim), idx, m) == if idx[dim as int] < x.shape.at(dim as int) {
            value(x, idx, m)
        } else {
            value(y, idx.update(dim as int, idx[dim as int] - x.shape.at(dim as int)), m)
        },
{
    reveal(Tensor::cat_expr);
    crate::element::lemma_unstretched(x.cat_expr(y, dim).shape, idx);
}

/// A dimension reversed.
pub proof fn lemma_flip_value(x: Tensor, dim: usize, idx: Seq<int>, m: Reading)
    requires
        crate::element::within(x.shape, idx),
    ensures
        x.flip_expr(dim).shape == x.shape,
        value(x.flip_expr(dim), idx, m) == value(
            x,
            idx.update(dim as int, x.shape.at(dim as int) - 1 - idx[dim as int]),
            m,
        ),
{
    reveal(Tensor::flip_expr);
    crate::element::lemma_unstretched(x.shape, idx);
}

/// The first `n` numbers of a row added up.
pub open spec fn sum(n: nat, row: spec_fn(int) -> real) -> real
    decreases n,
{
    if n == 0 {
        0real
    } else {
        sum((n - 1) as nat, row) + row(n - 1)
    }
}

/// Rows of the same numbers have the same sum.
pub proof fn lemma_same_sum(n: nat, row: spec_fn(int) -> real, other: spec_fn(int) -> real)
    requires
        forall|k: int| 0 <= k < n ==> #[trigger] row(k) == other(k),
    ensures
        sum(n, row) == sum(n, other),
    decreases n,
{
    if n > 0 {
        lemma_same_sum((n - 1) as nat, row, other);
        assert(row(n - 1) == other(n - 1));
    }
}

/// Opposite numbers have the opposite sum.
pub proof fn lemma_opposite_sum(n: nat, row: spec_fn(int) -> real, other: spec_fn(int) -> real)
    requires
        forall|k: int| 0 <= k < n ==> #[trigger] row(k) == -other(k),
    ensures
        sum(n, row) == -sum(n, other),
    decreases n,
{
    if n > 0 {
        lemma_opposite_sum((n - 1) as nat, row, other);
        assert(row(n - 1) == -other(n - 1));
    }
}

/// Summands are those of the row.
pub proof fn lemma_total_is_sum(
    t: Tensor,
    which: nat,
    n: nat,
    idx: Seq<int>,
    m: Reading,
    row: spec_fn(int) -> real,
)
    requires
        forall|k: int| 0 <= k < n ==> #[trigger] summand(t, which, k, idx, m) == row(k),
    ensures
        total(t, which, n, idx, m) == sum(n, row),
    decreases n,
{
    if n > 0 {
        lemma_total_is_sum(t, which, (n - 1) as nat, idx, m, row);
        assert(summand(t, which, n - 1, idx, m) == row(n - 1));
    }
}

/// The values along a dimension added up.
pub proof fn lemma_sum_value(x: Tensor, dim: usize, idx: Seq<int>, m: Reading)
    requires
        crate::element::within(x.shape.resized(dim as int, 1), idx),
    ensures
        x.sum_dim_expr(dim).shape == x.shape.resized(dim as int, 1),
        value(x.sum_dim_expr(dim), idx, m) == sum(
            x.shape.at(dim as int) as nat,
            |k: int| value(x, idx.update(dim as int, k), m),
        ),
{
    reveal(Tensor::sum_dim_expr);
    let t = x.sum_dim_expr(dim);
    crate::element::lemma_unstretched(t.shape, idx);
    let n = x.shape.at(dim as int) as nat;
    let row = |k: int| value(x, idx.update(dim as int, k), m);
    assert forall|k: int| 0 <= k < n implies #[trigger] summand(t, 0, k, idx, m) == row(k) by {}
    lemma_total_is_sum(t, 0, n, idx, m, row);
}

/// The values along a dimension added up, up to each.
pub proof fn lemma_cumsum_value(x: Tensor, dim: usize, idx: Seq<int>, m: Reading)
    requires
        crate::element::within(x.shape, idx),
    ensures
        x.cumsum_expr(dim).shape == x.shape,
        value(x.cumsum_expr(dim), idx, m) == sum(
            (idx[dim as int] + 1) as nat,
            |k: int| value(x, idx.update(dim as int, k), m),
        ),
{
    reveal(Tensor::cumsum_expr);
    let t = x.cumsum_expr(dim);
    crate::element::lemma_unstretched(t.shape, idx);
    let n = (idx[dim as int] + 1) as nat;
    let row = |k: int| value(x, idx.update(dim as int, k), m);
    assert forall|k: int| 0 <= k < n implies #[trigger] summand(t, 0, k, idx, m) == row(k) by {}
    lemma_total_is_sum(t, 0, n, idx, m, row);
}

/// The share of a value along a dimension.
pub proof fn lemma_softmax_value(x: Tensor, dim: usize, idx: Seq<int>, m: Reading)
    requires
        crate::element::within(x.shape, idx),
    ensures
        x.softmax_expr(dim).shape == x.shape,
        value(x.softmax_expr(dim), idx, m) == (m.exp)(value(x, idx, m)) / sum(
            x.shape.at(dim as int) as nat,
            |k: int| (m.exp)(value(x, idx.update(dim as int, k), m)),
        ),
{
    reveal(Tensor::softmax_expr);
    let t = x.softmax_expr(dim);
    crate::element::lemma_unstretched(t.shape, idx);
    let n = x.shape.at(dim as int) as nat;
    let row = |k: int| (m.exp)(value(x, idx.update(dim as int, k), m));
    assert forall|k: int| 0 <= k < n implies #[trigger] summand(t, 0, k, idx, m) == row(k) by {}
    lemma_total_is_sum(t, 0, n, idx, m, row);
}

/// Zeros before and after.
pub proof fn lemma_pad_value(
    x: Tensor,
    dim: usize,
    before: usize,
    after: usize,
    idx: Seq<int>,
    m: Reading,
)
    requires
        crate::element::within(x.pad_expr(dim, before, after).shape, idx),
    ensures
        value(x.pad_expr(dim, before, after), idx, m) == if 0 <= idx[dim as int] - before
            < x.shape.at(dim as int) {
            value(x, idx.update(dim as int, idx[dim as int] - before), m)
        } else {
            0real
        },
{
    reveal(Tensor::pad_expr);
    crate::element::lemma_unstretched(x.pad_expr(dim, before, after).shape, idx);
}

/// One index of a dimension filled.
pub proof fn lemma_slice_fill_value(
    x: Tensor,
    dim: usize,
    index: usize,
    s: Scalar,
    idx: Seq<int>,
    m: Reading,
)
    requires
        crate::element::within(x.shape, idx),
    ensures
        x.slice_fill_expr(dim, index, s).shape == x.shape,
        value(x.slice_fill_expr(dim, index, s), idx, m) == if idx[dim as int] == index {
            number(s, m)
        } else {
            value(x, idx, m)
        },
{
    reveal(Tensor::slice_fill_expr);
    crate::element::lemma_unstretched(x.shape, idx);
}

/// Values at indices that other values tell.
pub proof fn lemma_gather_value(x: Tensor, dim: usize, ids: Tensor, idx: Seq<int>, m: Reading)
    requires
        crate::element::within(ids.shape, idx),
    ensures
        x.gather_expr(dim, ids).shape == ids.shape,
        value(x.gather_expr(dim, ids), idx, m) == value(
            x,
            idx.update(dim as int, value(ids, idx, m).floor()),
            m,
        ),
{
    reveal(Tensor::gather_expr);
    crate::element::lemma_unstretched(ids.shape, idx);
}

/// A guard keeps the values.
pub proof fn lemma_guard_value(x: Tensor, condition: Tensor, idx: Seq<int>, m: Reading)
    ensures
        x.guard_expr(condition).shape == x.shape,
        value(x.guard_expr(condition), idx, m) == value(x, idx, m),
{
    reveal(Tensor::guard_expr);
    lemma_unstretched_twice(x.shape, idx);
    lemma_stretched(x, crate::element::unstretched(x.shape, idx), idx, m);
}

/// A reshaped tensor has the value at the same place in row-major order.
pub proof fn lemma_reshape_value(
    x: Tensor,
    shape: Shape,
    idx: Seq<int>,
    old_idx: Seq<int>,
    m: Reading,
)
    requires
        crate::element::within(shape, idx),
        crate::element::within(x.shape, old_idx),
        crate::element::flat(shape, idx) == crate::element::flat(x.shape, old_idx),
    ensures
        x.reshape_expr(shape).shape == shape,
        value(x.reshape_expr(shape), idx, m) == value(x, old_idx, m),
{
    reveal(Tensor::reshape_expr);
    crate::element::lemma_unstretched(shape, idx);
    crate::element::lemma_unflat(x.shape, old_idx);
}

/// One index of a dimension replaced.
pub proof fn lemma_slice_assign_value(
    x: Tensor,
    dim: usize,
    index: usize,
    y: Tensor,
    idx: Seq<int>,
    m: Reading,
)
    requires
        crate::element::within(x.shape, idx),
    ensures
        x.slice_assign_expr(dim, index, y).shape == x.shape,
        value(x.slice_assign_expr(dim, index, y), idx, m) == if idx[dim as int] == index {
            value(y, idx, m)
        } else {
            value(x, idx, m)
        },
{
    reveal(Tensor::slice_assign_expr);
    crate::element::lemma_unstretched(x.shape, idx);
}

/// Values replaced where a mask holds.
pub proof fn lemma_mask_where_value(
    x: Tensor,
    mask: Tensor,
    y: Tensor,
    idx: Seq<int>,
    m: Reading,
)
    requires
        crate::element::within(x.shape, idx),
    ensures
        x.mask_where_expr(mask, y).shape == x.shape,
        value(x.mask_where_expr(mask, y), idx, m) == if value(mask, idx, m) != 0real {
            value(y, idx, m)
        } else {
            value(x, idx, m)
        },
{
    reveal(Tensor::mask_where_expr);
    crate::element::lemma_unstretched(x.shape, idx);
}

/// Values filled where a mask holds.
pub proof fn lemma_mask_fill_value(
    x: Tensor,
    mask: Tensor,
    s: Scalar,
    idx: Seq<int>,
    m: Reading,
)
    requires
        crate::element::within(x.shape, idx),
    ensures
        x.mask_fill_expr(mask, s).shape == x.shape,
        value(x.mask_fill_expr(mask, s), idx, m) == if value(mask, idx, m) != 0real {
            number(s, m)
        } else {
            value(x, idx, m)
        },
{
    reveal(Tensor::mask_fill_expr);
    crate::element::lemma_unstretched(x.shape, idx);
}

/// The value of a number that a computation yields on the side.
pub open spec fn single_value(single: crate::tensor::Single, m: Reading) -> real {
    match single {
        crate::tensor::Single::Zero => 0real,
        crate::tensor::Single::First(t) => value(
            t,
            Seq::new(t.shape.rank() as nat, |d: int| 0int),
            m,
        ),
    }
}

} // verus!

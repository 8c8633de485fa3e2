//! The elements of tensors whose elements are only moved about, masked or counted.

use crate::shape::Shape;
use crate::tensor::{BinaryOp, Op, Tensor, UnaryOp};
use vstd::prelude::*;

verus! {

/// The position of an index in row-major order.
pub open spec fn flat(shape: Shape, idx: Seq<int>) -> int {
    match shape {
        Shape::D1(_) => idx[0],
        Shape::D2(_, b) => idx[0] * b + idx[1],
        Shape::D3(_, b, c) => (idx[0] * b + idx[1]) * c + idx[2],
        Shape::D4(_, b, c, d) => ((idx[0] * b + idx[1]) * c + idx[2]) * d + idx[3],
    }
}

/// The index at a position in row-major order.
pub open spec fn unflat(shape: Shape, k: int) -> Seq<int> {
    match shape {
        Shape::D1(_) => seq![k],
        Shape::D2(_, b) => seq![k / b as int, k % b as int],
        Shape::D3(_, b, c) => seq![
            (k / c as int) / b as int,
            (k / c as int) % b as int,
            k % c as int,
        ],
        Shape::D4(_, b, c, d) => seq![
            ((k / d as int) / c as int) / b as int,
            ((k / d as int) / c as int) % b as int,
            (k / d as int) % c as int,
            k % d as int,
        ],
    }
}

/// Whether a tensor of this shape has an element at an index.
pub open spec fn within(shape: Shape, idx: Seq<int>) -> bool {
    &&& idx.len() == shape.rank()
    &&& forall|d: int| 0 <= d < idx.len() ==> 0 <= #[trigger] idx[d] < shape.at(d)
}

/// One for a truth, zero for a falsehood.
pub open spec fn truth(b: bool) -> int {
    if b {
        1
    } else {
        0
    }
}

/// An index for an operand that may have been stretched.
pub open spec fn unstretched(shape: Shape, idx: Seq<int>) -> Seq<int> {
    Seq::new(
        idx.len(),
        |d: int|
            if shape.at(d) == 1 {
                0
            } else {
                idx[d]
            },
    )
}

/// The element of `t` at an index, a whole number. Operations that move elements about, count them
/// or compare them are followed; of all others `leaf` tells what their elements are.
pub open spec fn element(
    t: Tensor,
    idx: Seq<int>,
    leaf: spec_fn(Tensor, Seq<int>) -> int,
) -> int
    decreases t, 0nat,
{
    match *t.op {
        Op::Zeros => 0,
        Op::Ones => 1,
        Op::Arange => idx[0],
        Op::Unary(UnaryOp::ToFloat, x) => element(x, idx, leaf),
        Op::Unary(UnaryOp::ToInt, x) => element(x, idx, leaf),
        Op::Binary(op, x, y) => {
            let a = element(x, unstretched(x.shape, idx), leaf);
            let b = element(y, unstretched(y.shape, idx), leaf);
            match op {
                BinaryOp::Add => a + b,
                BinaryOp::Sub => a - b,
                BinaryOp::Mul => a * b,
                BinaryOp::Lower => truth(a < b),
                BinaryOp::GreaterEqual => truth(a >= b),
                BinaryOp::And => truth(a != 0 && b != 0),
                BinaryOp::Div => leaf(t, idx),
            }
        },
        Op::Reshape(x) => element(x, unflat(x.shape, flat(t.shape, idx)), leaf),
        Op::SwapDims(x, i, j) => element(
            x,
            idx.update(i as int, idx[j as int]).update(j as int, idx[i as int]),
            leaf,
        ),
        Op::Flip(x, dim) => element(
            x,
            idx.update(dim as int, x.shape.at(dim as int) - 1 - idx[dim as int]),
            leaf,
        ),
        Op::Pad(x, dim, before, _) => {
            let at = idx[dim as int] - before;
            if 0 <= at < x.shape.at(dim as int) {
                element(x, idx.update(dim as int, at), leaf)
            } else {
                0
            }
        },
        Op::Slice(x, dim, start, _) => element(
            x,
            idx.update(dim as int, idx[dim as int] + start),
            leaf,
        ),
        Op::Cat(x, y, dim) => {
            let at = idx[dim as int];
            let first = x.shape.at(dim as int);
            if at < first {
                element(x, idx, leaf)
            } else {
                element(y, idx.update(dim as int, at - first), leaf)
            }
        },
        Op::Cumsum(x, dim) => running_sum(x, dim, idx, (idx[dim as int] + 1) as nat, leaf),
        _ => leaf(t, idx),
    }
}

/// The sum of the first `n` elements along one dimension.
pub open spec fn running_sum(
    x: Tensor,
    dim: usize,
    idx: Seq<int>,
    n: nat,
    leaf: spec_fn(Tensor, Seq<int>) -> int,
) -> int
    decreases x, n + 1,
{
    if n == 0 {
        0
    } else {
        running_sum(x, dim, idx, (n - 1) as nat, leaf) + element(
            x,
            idx.update(dim as int, n - 1),
            leaf,
        )
    }
}

/// A sum along one dimension does not depend on the index in that dimension.
pub proof fn lemma_running_sum(
    x: Tensor,
    dim: usize,
    idx: Seq<int>,
    other: Seq<int>,
    n: nat,
    leaf: spec_fn(Tensor, Seq<int>) -> int,
)
    requires
        dim < idx.len(),
        idx.len() == other.len(),
        forall|d: int| 0 <= d < idx.len() && d != dim ==> #[trigger] idx[d] == other[d],
    ensures
        running_sum(x, dim, idx, n, leaf) == running_sum(x, dim, other, n, leaf),
    decreases n,
{
    if n > 0 {
        lemma_running_sum(x, dim, idx, other, (n - 1) as nat, leaf);
        assert(idx.update(dim as int, n - 1) =~= other.update(dim as int, n - 1));
    }
}

/// Division undoes multiplication with a remainder.
proof fn lemma_div(q: int, d: int, r: int)
    requires
        0 <= r < d,
    ensures
        (q * d + r) / d == q,
        (q * d + r) % d == r,
{
    vstd::arithmetic::div_mod::lemma_fundamental_div_mod_converse(q * d + r, d, q, r);
}

/// The index at the position of an index is that index.
pub proof fn lemma_unflat(shape: Shape, idx: Seq<int>)
    requires
        within(shape, idx),
    ensures
        unflat(shape, flat(shape, idx)) == idx,
{
    match shape {
        Shape::D1(_) => {
            assert(unflat(shape, flat(shape, idx)) =~= idx);
        },
        Shape::D2(_, b) => {
            lemma_div(idx[0], b as int, idx[1]);
            assert(unflat(shape, flat(shape, idx)) =~= idx);
        },
        Shape::D3(_, b, c) => {
            lemma_div(idx[0], b as int, idx[1]);
            lemma_div(idx[0] * b + idx[1], c as int, idx[2]);
            assert(unflat(shape, flat(shape, idx)) =~= idx);
        },
        Shape::D4(_, b, c, d) => {
            lemma_div(idx[0], b as int, idx[1]);
            lemma_div(idx[0] * b + idx[1], c as int, idx[2]);
            lemma_div((idx[0] * b + idx[1]) * c + idx[2], d as int, idx[3]);
            assert(unflat(shape, flat(shape, idx)) =~= idx);
        },
    }
}

/// A reshaped tensor has, at every index, the element at the same position in row-major order.
pub proof fn lemma_reshape(
    x: Tensor,
    shape: Shape,
    idx: Seq<int>,
    old_idx: Seq<int>,
    leaf: spec_fn(Tensor, Seq<int>) -> int,
)
    requires
        within(x.shape, old_idx),
        flat(shape, idx) == flat(x.shape, old_idx),
    ensures
        element(x.reshape_expr(shape), idx, leaf) == element(x, old_idx, leaf),
{
    reveal(Tensor::reshape_expr);
    lemma_unflat(x.shape, old_idx);
}

/// The last two dimensions made into one.
pub proof fn lemma_join_rows(
    x: Tensor,
    b: int,
    h: int,
    r: int,
    c: int,
    leaf: spec_fn(Tensor, Seq<int>) -> int,
)
    requires
        x.shape.rank() == 4,
        within(x.shape, seq![b, h, r, c]),
        x.at(2) * x.at(3) <= usize::MAX,
    ensures
        element(
            x.reshape_expr(Shape::D3(x.at(0), x.at(1), (x.at(2) * x.at(3)) as usize)),
            seq![b, h, r * x.at(3) + c],
            leaf,
        ) == element(x, seq![b, h, r, c], leaf),
{
    let n = (x.at(2) * x.at(3)) as usize;
    assert((b * x.at(1) + h) * n + (r * x.at(3) + c) == ((b * x.at(1) + h) * x.at(2) + r) * x.at(3)
        + c) by (nonlinear_arith)
        requires
            n == x.at(2) * x.at(3),
    ;
    lemma_reshape(
        x,
        Shape::D3(x.at(0), x.at(1), n),
        seq![b, h, r * x.at(3) + c],
        seq![b, h, r, c],
        leaf,
    );
}

/// The last dimension made into rows.
pub proof fn lemma_split_rows(
    x: Tensor,
    rows: usize,
    columns: usize,
    b: int,
    h: int,
    r: int,
    c: int,
    leaf: spec_fn(Tensor, Seq<int>) -> int,
)
    requires
        x.shape.rank() == 3,
        x.at(2) == rows * columns,
        0 <= b < x.at(0),
        0 <= h < x.at(1),
        0 <= r < rows,
        0 <= c < columns,
    ensures
        element(
            x.reshape_expr(Shape::D4(x.at(0), x.at(1), rows, columns)),
            seq![b, h, r, c],
            leaf,
        ) == element(x, seq![b, h, r * columns + c], leaf),
{
    let n = x.at(2);
    assert(0 <= r * columns + c < n) by (nonlinear_arith)
        requires
            n == rows * columns,
            0 <= r < rows,
            0 <= c < columns,
    ;
    assert(((b * x.at(1) + h) * rows + r) * columns + c == (b * x.at(1) + h) * n + (r * columns
        + c)) by (nonlinear_arith)
        requires
            n == rows * columns,
    ;
    lemma_reshape(
        x,
        Shape::D4(x.at(0), x.at(1), rows, columns),
        seq![b, h, r, c],
        seq![b, h, r * columns + c],
        leaf,
    );
}

/// The element before the padding, or zero.
pub proof fn lemma_pad(
    x: Tensor,
    dim: usize,
    before: usize,
    after: usize,
    idx: Seq<int>,
    leaf: spec_fn(Tensor, Seq<int>) -> int,
)
    ensures
        element(x.pad_expr(dim, before, after), idx, leaf) == {
            let at = idx[dim as int] - before;
            if 0 <= at < x.at(dim as int) {
                element(x, idx.update(dim as int, at), leaf)
            } else {
                0
            }
        },
{
    reveal(Tensor::pad_expr);
}

/// The element further along.
pub proof fn lemma_slice(
    x: Tensor,
    dim: usize,
    start: usize,
    end: usize,
    idx: Seq<int>,
    leaf: spec_fn(Tensor, Seq<int>) -> int,
)
    ensures
        element(x.slice_expr(dim, start, end), idx, leaf) == element(
            x,
            idx.update(dim as int, idx[dim as int] + start),
            leaf,
        ),
{
    reveal(Tensor::slice_expr);
}

/// Reversing a dimension twice leaves every element where it was.
pub proof fn lemma_flip_twice(
    x: Tensor,
    dim: usize,
    idx: Seq<int>,
    leaf: spec_fn(Tensor, Seq<int>) -> int,
)
    requires
        dim < x.shape.rank(),
        within(x.shape, idx),
    ensures
        element(x.flip_expr(dim).flip_expr(dim), idx, leaf) == element(x, idx, leaf),
{
    reveal(Tensor::flip_expr);
    let d = dim as int;
    let back = x.shape.at(d) - 1 - idx[d];
    let y = x.flip_expr(dim);
    assert(element(y.flip_expr(dim), idx, leaf) == element(y, idx.update(d, back), leaf));
    assert(idx.update(d, back).update(d, x.shape.at(d) - 1 - back) =~= idx);
}

/// An index within a shape is not changed by stretching.
pub proof fn lemma_unstretched(shape: Shape, idx: Seq<int>)
    requires
        within(shape, idx),
    ensures
        unstretched(shape, idx) == idx,
{
    assert(unstretched(shape, idx) =~= idx);
}

/// The difference and the product, element by element, of tensors of one shape.
pub proof fn lemma_binary(
    op: BinaryOp,
    x: Tensor,
    y: Tensor,
    idx: Seq<int>,
    leaf: spec_fn(Tensor, Seq<int>) -> int,
)
    requires
        x.shape == y.shape,
        within(x.shape, idx),
    ensures
        op == BinaryOp::Sub ==> element(x.binary_expr(op, y), idx, leaf) == element(x, idx, leaf)
            - element(y, idx, leaf),
        op == BinaryOp::Mul ==> element(x.binary_expr(op, y), idx, leaf) == element(x, idx, leaf)
            * element(y, idx, leaf),
{
    reveal(Tensor::binary_expr);
    lemma_unstretched(x.shape, idx);
}

/// Conversions keep whole numbers.
pub proof fn lemma_convert(
    x: Tensor,
    op: UnaryOp,
    idx: Seq<int>,
    leaf: spec_fn(Tensor, Seq<int>) -> int,
)
    requires
        op == UnaryOp::ToFloat || op == UnaryOp::ToInt,
    ensures
        element(x.unary_expr(op), idx, leaf) == element(x, idx, leaf),
        x.unary_expr(op).shape == x.shape,
{
    reveal(Tensor::unary_expr);
}

} // verus!

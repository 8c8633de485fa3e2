//! Recipes that are made alike of parts that have the same values have the same values.

use crate::number::{Real, Scalar};
use crate::param::Param;
use crate::shape::Shape;
use crate::tensor::{BinaryOp, Op, ScalarOp, Tensor, UnaryOp, Window};
use crate::value::Reading;
use vstd::prelude::*;

verus! {

/// Whether `x` under the first reading and `y` under the second have one shape and the same value
/// at every index.
#[verifier::opaque]
pub open spec fn alike(x: Tensor, y: Tensor, m: Reading, n: Reading) -> bool {
    &&& x.shape == y.shape
    &&& forall|idx: Seq<int>| #[trigger]
        crate::value::value(x, idx, m) == crate::value::value(y, idx, n)
}

/// Whether two optional tensors are both missing or both there and alike.
pub open spec fn both_alike(
    x: Option<Tensor>,
    y: Option<Tensor>,
    m: Reading,
    n: Reading,
) -> bool {
    match (x, y) {
        (Some(x), Some(y)) => alike(x, y, m, n),
        (None, None) => true,
        _ => false,
    }
}

/// Scalars do not depend on what is drawn.
proof fn lemma_number(scalar: &Scalar, m: Reading, n: Reading)
    requires
        m.same_but_noise(n),
    ensures
        crate::value::number(*scalar, m) == crate::value::number(*scalar, n),
    decreases *scalar,
{
    match scalar {
        Scalar::Neg(a) | Scalar::Sqrt(a) | Scalar::Exp(a) | Scalar::Ln(a) | Scalar::Pow(a, _) => {
            lemma_number(&**a, m, n);
        },
        Scalar::Sub(a, b) | Scalar::Mul(a, b) => {
            lemma_number(&**a, m, n);
            lemma_number(&**b, m, n);
        },
        _ => {},
    }
}

/// Equal summands add up to equal totals.
pub proof fn lemma_total(
    x: Tensor,
    y: Tensor,
    sum: nat,
    k: nat,
    idx: Seq<int>,
    m: Reading,
    n: Reading,
)
    requires
        forall|i: int|
            0 <= i < k ==> #[trigger] crate::value::summand(x, sum, i, idx, m)
                == crate::value::summand(y, sum, i, idx, n),
    ensures
        crate::value::total(x, sum, k, idx, m) == crate::value::total(y, sum, k, idx, n),
    decreases k,
{
    if k > 0 {
        lemma_total(x, y, sum, (k - 1) as nat, idx, m, n);
        assert(crate::value::summand(x, sum, k - 1, idx, m) == crate::value::summand(
            y,
            sum,
            k - 1,
            idx,
            n,
        ));
    }
}

/// A tensor is like itself.
pub broadcast proof fn lemma_alike_itself(x: Tensor, m: Reading)
    ensures
        #[trigger] alike(x, x, m, m),
{
    reveal(alike);
}

/// Tensors that are alike have one shape.
pub broadcast proof fn lemma_alike_shape(x: Tensor, y: Tensor, m: Reading, n: Reading)
    requires
        #[trigger] alike(x, y, m, n),
    ensures
        x.shape == y.shape,
{
    reveal(alike);
}

/// A parameter does not depend on what is drawn.
pub broadcast proof fn lemma_alike_bias(bias: Option<Param>, m: Reading, n: Reading)
    requires
        m.same_but_noise(n),
    ensures
        #[trigger] both_alike(
            Param::optional_value_expr(bias),
            Param::optional_value_expr(bias),
            m,
            n,
        ),
{
    broadcast use lemma_alike_leaf;

}

/// Tensors of the same values have the same greatest one.
proof fn lemma_greatest(x: Tensor, y: Tensor, k: nat, m: Reading, n: Reading)
    requires
        alike(x, y, m, n),
    ensures
        crate::value::greatest(x, k, m) == crate::value::greatest(y, k, n),
    decreases k,
{
    reveal(alike);
    if k > 0 {
        let last = crate::element::unflat(x.shape, k - 1);
        lemma_greatest(x, y, (k - 1) as nat, m, n);
        assert(crate::value::value(x, last, m) == crate::value::value(y, last, n));
    }
}

pub broadcast proof fn lemma_alike_leaf(
    kind: crate::tensor::Kind,
    shape: Shape,
    op: Op,
    m: Reading,
    n: Reading,
)
    requires
        m.same_but_noise(n),
        op is Input || op is Param || op is Zeros || op is Ones || op is Arange,
    ensures
        #[trigger] alike(
            Tensor::leaf_expr(kind, shape, op),
            Tensor::leaf_expr(kind, shape, op),
            m,
            n,
        ),
{
    reveal(alike);
    reveal(Tensor::leaf_expr);
}

pub broadcast proof fn lemma_alike_unary(
    x: Tensor,
    x_: Tensor,
    op: UnaryOp,
    m: Reading,
    n: Reading,
)
    requires
        m.same_but_noise(n),
        alike(x, x_, m, n),
    ensures
        #[trigger] alike(x.unary_expr(op), x_.unary_expr(op), m, n),
{
    reveal(alike);
    reveal(Tensor::unary_expr);
    let p = x.unary_expr(op);
    let q = x_.unary_expr(op);
    assert forall|idx: Seq<int>| #[trigger]
        crate::value::value(p, idx, m) == crate::value::value(q, idx, n) by {
        let i = crate::element::unstretched(p.shape, idx);
        assert(crate::value::value(x, i, m) == crate::value::value(x_, i, n));
    }
}

pub broadcast proof fn lemma_alike_scalar(
    x: Tensor,
    x_: Tensor,
    op: ScalarOp,
    value: Scalar,
    m: Reading,
    n: Reading,
)
    requires
        m.same_but_noise(n),
        alike(x, x_, m, n),
    ensures
        #[trigger] alike(x.scalar_expr(op, value), x_.scalar_expr(op, value), m, n),
{
    reveal(alike);
    reveal(Tensor::scalar_expr);
    lemma_number(&value, m, n);
    let p = x.scalar_expr(op, value);
    let q = x_.scalar_expr(op, value);
    assert forall|idx: Seq<int>| #[trigger]
        crate::value::value(p, idx, m) == crate::value::value(q, idx, n) by {
        let i = crate::element::unstretched(p.shape, idx);
        assert(crate::value::value(x, i, m) == crate::value::value(x_, i, n));
    }
}

pub broadcast proof fn lemma_alike_binary(
    x: Tensor,
    x_: Tensor,
    y: Tensor,
    y_: Tensor,
    op: BinaryOp,
    m: Reading,
    n: Reading,
)
    requires
        m.same_but_noise(n),
        alike(x, x_, m, n),
        alike(y, y_, m, n),
    ensures
        #[trigger] alike(x.binary_expr(op, y), x_.binary_expr(op, y_), m, n),
{
    reveal(alike);
    reveal(Tensor::binary_expr);
    let p = x.binary_expr(op, y);
    let q = x_.binary_expr(op, y_);
    assert forall|idx: Seq<int>| #[trigger]
        crate::value::value(p, idx, m) == crate::value::value(q, idx, n) by {
        let i = crate::element::unstretched(p.shape, idx);
        assert(crate::value::value(x, i, m) == crate::value::value(x_, i, n));
        assert(crate::value::value(y, i, m) == crate::value::value(y_, i, n));
    }
}

pub broadcast proof fn lemma_alike_matmul(
    x: Tensor,
    x_: Tensor,
    y: Tensor,
    y_: Tensor,
    m: Reading,
    n: Reading,
)
    requires
        m.same_but_noise(n),
        alike(x, x_, m, n),
        alike(y, y_, m, n),
    ensures
        #[trigger] alike(x.matmul_expr(y), x_.matmul_expr(y_), m, n),
{
    reveal(alike);
    reveal(Tensor::matmul_expr);
    let p = x.matmul_expr(y);
    let q = x_.matmul_expr(y_);
    assert forall|idx: Seq<int>| #[trigger]
        crate::value::value(p, idx, m) == crate::value::value(q, idx, n) by {
        let i = crate::element::unstretched(p.shape, idx);
        assert forall|k: int| 0 <= k < x.shape.at(x.shape.rank() - 1) as nat implies #[trigger]
            crate::value::summand(p, 0, k, i, m) == crate::value::summand(q, 0, k, i, n) by {
            let at = i.update(x.shape.rank() - 1, k);
            assert(crate::value::value(x, at, m) == crate::value::value(x_, at, n));
            let at = i.update(x.shape.rank() - 2, k);
            assert(crate::value::value(y, at, m) == crate::value::value(y_, at, n));
        }
        lemma_total(p, q, 0, x.shape.at(x.shape.rank() - 1) as nat, i, m, n);
    }
}

pub broadcast proof fn lemma_alike_reshape(
    x: Tensor,
    x_: Tensor,
    shape: Shape,
    m: Reading,
    n: Reading,
)
    requires
        m.same_but_noise(n),
        alike(x, x_, m, n),
    ensures
        #[trigger] alike(x.reshape_expr(shape), x_.reshape_expr(shape), m, n),
{
    reveal(alike);
    reveal(Tensor::reshape_expr);
    let p = x.reshape_expr(shape);
    let q = x_.reshape_expr(shape);
    assert forall|idx: Seq<int>| #[trigger]
        crate::value::value(p, idx, m) == crate::value::value(q, idx, n) by {
        let i = crate::element::unstretched(p.shape, idx);
        let at = crate::element::unflat(x.shape, crate::element::flat(shape, i));
        assert(crate::value::value(x, at, m) == crate::value::value(x_, at, n));
    }
}

pub broadcast proof fn lemma_alike_swap_dims(
    x: Tensor,
    x_: Tensor,
    a: usize,
    b: usize,
    m: Reading,
    n: Reading,
)
    requires
        m.same_but_noise(n),
        alike(x, x_, m, n),
    ensures
        #[trigger] alike(x.swap_dims_expr(a, b), x_.swap_dims_expr(a, b), m, n),
{
    reveal(alike);
    reveal(Tensor::swap_dims_expr);
    let p = x.swap_dims_expr(a, b);
    let q = x_.swap_dims_expr(a, b);
    assert forall|idx: Seq<int>| #[trigger]
        crate::value::value(p, idx, m) == crate::value::value(q, idx, n) by {
        let i = crate::element::unstretched(p.shape, idx);
        let at = crate::value::swapped(i, a as int, b as int);
        assert(crate::value::value(x, at, m) == crate::value::value(x_, at, n));
    }
}

pub broadcast proof fn lemma_alike_flip(
    x: Tensor,
    x_: Tensor,
    dim: usize,
    m: Reading,
    n: Reading,
)
    requires
        m.same_but_noise(n),
        alike(x, x_, m, n),
    ensures
        #[trigger] alike(x.flip_expr(dim), x_.flip_expr(dim), m, n),
{
    reveal(alike);
    reveal(Tensor::flip_expr);
    let p = x.flip_expr(dim);
    let q = x_.flip_expr(dim);
    assert forall|idx: Seq<int>| #[trigger]
        crate::value::value(p, idx, m) == crate::value::value(q, idx, n) by {
        let i = crate::element::unstretched(p.shape, idx);
        let at = i.update(dim as int, x.shape.at(dim as int) - 1 - i[dim as int]);
        assert(crate::value::value(x, at, m) == crate::value::value(x_, at, n));
    }
}

pub broadcast proof fn lemma_alike_pad(
    x: Tensor,
    x_: Tensor,
    dim: usize,
    before: usize,
    after: usize,
    m: Reading,
    n: Reading,
)
    requires
        m.same_but_noise(n),
        alike(x, x_, m, n),
    ensures
        #[trigger] alike(x.pad_expr(dim, before, after), x_.pad_expr(dim, before, after), m, n),
{
    reveal(alike);
    reveal(Tensor::pad_expr);
    let p = x.pad_expr(dim, before, after);
    let q = x_.pad_expr(dim, before, after);
    assert forall|idx: Seq<int>| #[trigger]
        crate::value::value(p, idx, m) == crate::value::value(q, idx, n) by {
        let i = crate::element::unstretched(p.shape, idx);
        let at = i.update(dim as int, i[dim as int] - before);
        assert(crate::value::value(x, at, m) == crate::value::value(x_, at, n));
    }
}

pub broadcast proof fn lemma_alike_slice(
    x: Tensor,
    x_: Tensor,
    dim: usize,
    start: usize,
    end: usize,
    m: Reading,
    n: Reading,
)
    requires
        m.same_but_noise(n),
        alike(x, x_, m, n),
    ensures
        #[trigger] alike(x.slice_expr(dim, start, end), x_.slice_expr(dim, start, end), m, n),
{
    reveal(alike);
    reveal(Tensor::slice_expr);
    let p = x.slice_expr(dim, start, end);
    let q = x_.slice_expr(dim, start, end);
    assert forall|idx: Seq<int>| #[trigger]
        crate::value::value(p, idx, m) == crate::value::value(q, idx, n) by {
        let i = crate::element::unstretched(p.shape, idx);
        let at = i.update(dim as int, i[dim as int] + start);
        assert(crate::value::value(x, at, m) == crate::value::value(x_, at, n));
    }
}

pub broadcast proof fn lemma_alike_slice_fill(
    x: Tensor,
    x_: Tensor,
    dim: usize,
    index: usize,
    value: Scalar,
    m: Reading,
    n: Reading,
)
    requires
        m.same_but_noise(n),
        alike(x, x_, m, n),
    ensures
        #[trigger] alike(
            x.slice_fill_expr(dim, index, value),
            x_.slice_fill_expr(dim, index, value),
            m,
            n,
        ),
{
    reveal(alike);
    reveal(Tensor::slice_fill_expr);
    lemma_number(&value, m, n);
    let p = x.slice_fill_expr(dim, index, value);
    let q = x_.slice_fill_expr(dim, index, value);
    assert forall|idx: Seq<int>| #[trigger]
        crate::value::value(p, idx, m) == crate::value::value(q, idx, n) by {
        let i = crate::element::unstretched(p.shape, idx);
        assert(crate::value::value(x, i, m) == crate::value::value(x_, i, n));
    }
}

pub broadcast proof fn lemma_alike_slice_assign(
    x: Tensor,
    x_: Tensor,
    y: Tensor,
    y_: Tensor,
    dim: usize,
    index: usize,
    m: Reading,
    n: Reading,
)
    requires
        m.same_but_noise(n),
        alike(x, x_, m, n),
        alike(y, y_, m, n),
    ensures
        #[trigger] alike(
            x.slice_assign_expr(dim, index, y),
            x_.slice_assign_expr(dim, index, y_),
            m,
            n,
        ),
{
    reveal(alike);
    reveal(Tensor::slice_assign_expr);
    let p = x.slice_assign_expr(dim, index, y);
    let q = x_.slice_assign_expr(dim, index, y_);
    assert forall|idx: Seq<int>| #[trigger]
        crate::value::value(p, idx, m) == crate::value::value(q, idx, n) by {
        let i = crate::element::unstretched(p.shape, idx);
        assert(crate::value::value(x, i, m) == crate::value::value(x_, i, n));
        assert(crate::value::value(y, i, m) == crate::value::value(y_, i, n));
    }
}

pub broadcast proof fn lemma_alike_cat(
    x: Tensor,
    x_: Tensor,
    y: Tensor,
    y_: Tensor,
    dim: usize,
    m: Reading,
    n: Reading,
)
    requires
        m.same_but_noise(n),
        alike(x, x_, m, n),
        alike(y, y_, m, n),
    ensures
        #[trigger] alike(x.cat_expr(y, dim), x_.cat_expr(y_, dim), m, n),
{
    reveal(alike);
    reveal(Tensor::cat_expr);
    let p = x.cat_expr(y, dim);
    let q = x_.cat_expr(y_, dim);
    assert forall|idx: Seq<int>| #[trigger]
        crate::value::value(p, idx, m) == crate::value::value(q, idx, n) by {
        let i = crate::element::unstretched(p.shape, idx);
        assert(crate::value::value(x, i, m) == crate::value::value(x_, i, n));
        let at = i.update(dim as int, i[dim as int] - x.shape.at(dim as int));
        assert(crate::value::value(y, at, m) == crate::value::value(y_, at, n));
    }
}

pub broadcast proof fn lemma_alike_gather(
    x: Tensor,
    x_: Tensor,
    ids: Tensor,
    ids_: Tensor,
    dim: usize,
    m: Reading,
    n: Reading,
)
    requires
        m.same_but_noise(n),
        alike(x, x_, m, n),
        alike(ids, ids_, m, n),
    ensures
        #[trigger] alike(x.gather_expr(dim, ids), x_.gather_expr(dim, ids_), m, n),
{
    reveal(alike);
    reveal(Tensor::gather_expr);
    let p = x.gather_expr(dim, ids);
    let q = x_.gather_expr(dim, ids_);
    assert forall|idx: Seq<int>| #[trigger]
        crate::value::value(p, idx, m) == crate::value::value(q, idx, n) by {
        let i = crate::element::unstretched(p.shape, idx);
        assert(crate::value::value(ids, i, m) == crate::value::value(ids_, i, n));
        let at = i.update(dim as int, crate::value::value(ids, i, m).floor());
        assert(crate::value::value(x, at, m) == crate::value::value(x_, at, n));
    }
}

pub broadcast proof fn lemma_alike_mask_fill(
    x: Tensor,
    x_: Tensor,
    mask: Tensor,
    mask_: Tensor,
    value: Scalar,
    m: Reading,
    n: Reading,
)
    requires
        m.same_but_noise(n),
        alike(x, x_, m, n),
        alike(mask, mask_, m, n),
    ensures
        #[trigger] alike(x.mask_fill_expr(mask, value), x_.mask_fill_expr(mask_, value), m, n),
{
    reveal(alike);
    reveal(Tensor::mask_fill_expr);
    lemma_number(&value, m, n);
    let p = x.mask_fill_expr(mask, value);
    let q = x_.mask_fill_expr(mask_, value);
    assert forall|idx: Seq<int>| #[trigger]
        crate::value::value(p, idx, m) == crate::value::value(q, idx, n) by {
        let i = crate::element::unstretched(p.shape, idx);
        assert(crate::value::value(x, i, m) == crate::value::value(x_, i, n));
        assert(crate::value::value(mask, i, m) == crate::value::value(mask_, i, n));
    }
}

pub broadcast proof fn lemma_alike_mask_where(
    x: Tensor,
    x_: Tensor,
    mask: Tensor,
    mask_: Tensor,
    y: Tensor,
    y_: Tensor,
    m: Reading,
    n: Reading,
)
    requires
        m.same_but_noise(n),
        alike(x, x_, m, n),
        alike(mask, mask_, m, n),
        alike(y, y_, m, n),
    ensures
        #[trigger] alike(x.mask_where_expr(mask, y), x_.mask_where_expr(mask_, y_), m, n),
{
    reveal(alike);
    reveal(Tensor::mask_where_expr);
    let p = x.mask_where_expr(mask, y);
    let q = x_.mask_where_expr(mask_, y_);
    assert forall|idx: Seq<int>| #[trigger]
        crate::value::value(p, idx, m) == crate::value::value(q, idx, n) by {
        let i = crate::element::unstretched(p.shape, idx);
        assert(crate::value::value(x, i, m) == crate::value::value(x_, i, n));
        assert(crate::value::value(mask, i, m) == crate::value::value(mask_, i, n));
        assert(crate::value::value(y, i, m) == crate::value::value(y_, i, n));
    }
}

pub broadcast proof fn lemma_alike_sum_dim(
    x: Tensor,
    x_: Tensor,
    dim: usize,
    m: Reading,
    n: Reading,
)
    requires
        m.same_but_noise(n),
        alike(x, x_, m, n),
    ensures
        #[trigger] alike(x.sum_dim_expr(dim), x_.sum_dim_expr(dim), m, n),
{
    reveal(alike);
    reveal(Tensor::sum_dim_expr);
    let p = x.sum_dim_expr(dim);
    let q = x_.sum_dim_expr(dim);
    assert forall|idx: Seq<int>| #[trigger]
        crate::value::value(p, idx, m) == crate::value::value(q, idx, n) by {
        let i = crate::element::unstretched(p.shape, idx);
        assert forall|k: int| 0 <= k < x.shape.at(dim as int) as nat implies #[trigger]
            crate::value::summand(p, 0, k, i, m) == crate::value::summand(q, 0, k, i, n) by {
            let at = i.update(dim as int, k);
            assert(crate::value::value(x, at, m) == crate::value::value(x_, at, n));
        }
        lemma_total(p, q, 0, x.shape.at(dim as int) as nat, i, m, n);
    }
}

pub broadcast proof fn lemma_alike_cumsum(
    x: Tensor,
    x_: Tensor,
    dim: usize,
    m: Reading,
    n: Reading,
)
    requires
        m.same_but_noise(n),
        alike(x, x_, m, n),
    ensures
        #[trigger] alike(x.cumsum_expr(dim), x_.cumsum_expr(dim), m, n),
{
    reveal(alike);
    reveal(Tensor::cumsum_expr);
    let p = x.cumsum_expr(dim);
    let q = x_.cumsum_expr(dim);
    assert forall|idx: Seq<int>| #[trigger]
        crate::value::value(p, idx, m) == crate::value::value(q, idx, n) by {
        let i = crate::element::unstretched(p.shape, idx);
        assert forall|k: int| 0 <= k < (i[dim as int] + 1) as nat implies #[trigger]
            crate::value::summand(p, 0, k, i, m) == crate::value::summand(q, 0, k, i, n) by {
            let at = i.update(dim as int, k);
            assert(crate::value::value(x, at, m) == crate::value::value(x_, at, n));
        }
        lemma_total(p, q, 0, (i[dim as int] + 1) as nat, i, m, n);
    }
}

pub broadcast proof fn lemma_alike_softmax(
    x: Tensor,
    x_: Tensor,
    dim: usize,
    m: Reading,
    n: Reading,
)
    requires
        m.same_but_noise(n),
        alike(x, x_, m, n),
    ensures
        #[trigger] alike(x.softmax_expr(dim), x_.softmax_expr(dim), m, n),
{
    reveal(alike);
    reveal(Tensor::softmax_expr);
    let p = x.softmax_expr(dim);
    let q = x_.softmax_expr(dim);
    assert forall|idx: Seq<int>| #[trigger]
        crate::value::value(p, idx, m) == crate::value::value(q, idx, n) by {
        let i = crate::element::unstretched(p.shape, idx);
        assert(crate::value::value(x, i, m) == crate::value::value(x_, i, n));
        assert forall|k: int| 0 <= k < x.shape.at(dim as int) as nat implies #[trigger]
            crate::value::summand(p, 0, k, i, m) == crate::value::summand(q, 0, k, i, n) by {
            let at = i.update(dim as int, k);
            assert(crate::value::value(x, at, m) == crate::value::value(x_, at, n));
        }
        lemma_total(p, q, 0, x.shape.at(dim as int) as nat, i, m, n);
    }
}

pub broadcast proof fn lemma_alike_max(
    x: Tensor,
    x_: Tensor,
    m: Reading,
    n: Reading,
)
    requires
        m.same_but_noise(n),
        alike(x, x_, m, n),
    ensures
        #[trigger] alike(x.max_expr(), x_.max_expr(), m, n),
{
    reveal(alike);
    reveal(Tensor::max_expr);
    lemma_greatest(x, x_, x.shape.count() as nat, m, n);
    let p = x.max_expr();
    let q = x_.max_expr();
    assert forall|idx: Seq<int>| #[trigger]
        crate::value::value(p, idx, m) == crate::value::value(q, idx, n) by {
        let i = crate::element::unstretched(p.shape, idx);
    }
}

pub broadcast proof fn lemma_alike_triu(
    x: Tensor,
    x_: Tensor,
    diagonal: i64,
    m: Reading,
    n: Reading,
)
    requires
        m.same_but_noise(n),
        alike(x, x_, m, n),
    ensures
        #[trigger] alike(x.triu_expr(diagonal), x_.triu_expr(diagonal), m, n),
{
    reveal(alike);
    reveal(Tensor::triu_expr);
    let p = x.triu_expr(diagonal);
    let q = x_.triu_expr(diagonal);
    assert forall|idx: Seq<int>| #[trigger]
        crate::value::value(p, idx, m) == crate::value::value(q, idx, n) by {
        let i = crate::element::unstretched(p.shape, idx);
        assert(crate::value::value(x, i, m) == crate::value::value(x_, i, n));
    }
}

pub broadcast proof fn lemma_alike_tril(
    x: Tensor,
    x_: Tensor,
    diagonal: i64,
    m: Reading,
    n: Reading,
)
    requires
        m.same_but_noise(n),
        alike(x, x_, m, n),
    ensures
        #[trigger] alike(x.tril_expr(diagonal), x_.tril_expr(diagonal), m, n),
{
    reveal(alike);
    reveal(Tensor::tril_expr);
    let p = x.tril_expr(diagonal);
    let q = x_.tril_expr(diagonal);
    assert forall|idx: Seq<int>| #[trigger]
        crate::value::value(p, idx, m) == crate::value::value(q, idx, n) by {
        let i = crate::element::unstretched(p.shape, idx);
        assert(crate::value::value(x, i, m) == crate::value::value(x_, i, n));
    }
}

pub broadcast proof fn lemma_alike_conv1d(
    x: Tensor,
    x_: Tensor,
    weight: Tensor,
    weight_: Tensor,
    bias: Option<Tensor>,
    bias_: Option<Tensor>,
    window: Window,
    m: Reading,
    n: Reading,
)
    requires
        m.same_but_noise(n),
        alike(x, x_, m, n),
        alike(weight, weight_, m, n),
        both_alike(bias, bias_, m, n),
    ensures
        #[trigger] alike(
            x.conv1d_expr(weight, bias, window),
            x_.conv1d_expr(weight_, bias_, window),
            m,
            n,
        ),
{
    reveal(alike);
    reveal(Tensor::conv1d_expr);
    let p = x.conv1d_expr(weight, bias, window);
    let q = x_.conv1d_expr(weight_, bias_, window);
    assert forall|idx: Seq<int>| #[trigger]
        crate::value::value(p, idx, m) == crate::value::value(q, idx, n) by {
        let i = crate::element::unstretched(p.shape, idx);
        if let (Some(bias), Some(bias_)) = (bias, bias_) {
            let at = seq![i[1]];
            assert(crate::value::value(bias, at, m) == crate::value::value(bias_, at, n));
        }
        assert forall|k: int|
            0 <= k < (weight.shape.at(1) * weight.shape.at(2)) as nat implies #[trigger]
            crate::value::summand(p, 0, k, i, m) == crate::value::summand(q, 0, k, i, n) by {
            let taps = weight.shape.at(2) as int;
            let group = i[1] / (weight.shape.at(0) as int / window.groups as int);
            let place = i[2] * window.stride + (k % taps) * window.dilation;
            let from = group * weight.shape.at(1) + k / taps;
            let at = seq![i[1], k / taps, k % taps];
            assert(crate::value::value(weight, at, m) == crate::value::value(weight_, at, n));
            let at = seq![i[0], from, place - window.before];
            assert(crate::value::value(x, at, m) == crate::value::value(x_, at, n));
        }
        lemma_total(p, q, 0, (weight.shape.at(1) * weight.shape.at(2)) as nat, i, m, n);
    }
}

pub broadcast proof fn lemma_alike_conv_transpose1d(
    x: Tensor,
    x_: Tensor,
    weight: Tensor,
    weight_: Tensor,
    bias: Option<Tensor>,
    bias_: Option<Tensor>,
    stride: usize,
    padding: usize,
    output_padding: usize,
    m: Reading,
    n: Reading,
)
    requires
        m.same_but_noise(n),
        alike(x, x_, m, n),
        alike(weight, weight_, m, n),
        both_alike(bias, bias_, m, n),
    ensures
        #[trigger] alike(
            x.conv_transpose1d_expr(weight, bias, stride, padding, output_padding),
            x_.conv_transpose1d_expr(weight_, bias_, stride, padding, output_padding),
            m,
            n,
        ),
{
    reveal(alike);
    reveal(Tensor::conv_transpose1d_expr);
    let p = x.conv_transpose1d_expr(weight, bias, stride, padding, output_padding);
    let q = x_.conv_transpose1d_expr(weight_, bias_, stride, padding, output_padding);
    assert forall|idx: Seq<int>| #[trigger]
        crate::value::value(p, idx, m) == crate::value::value(q, idx, n) by {
        let i = crate::element::unstretched(p.shape, idx);
        if let (Some(bias), Some(bias_)) = (bias, bias_) {
            let at = seq![i[1]];
            assert(crate::value::value(bias, at, m) == crate::value::value(bias_, at, n));
        }
        assert forall|k: int|
            0 <= k < (weight.shape.at(0) * weight.shape.at(2)) as nat implies #[trigger]
            crate::value::summand(p, 0, k, i, m) == crate::value::summand(q, 0, k, i, n) by {
            let taps = weight.shape.at(2) as int;
            let place = i[2] + padding - k % taps;
            let at = seq![k / taps, i[1], k % taps];
            assert(crate::value::value(weight, at, m) == crate::value::value(weight_, at, n));
            let at = seq![i[0], k / taps, place / (stride as int)];
            assert(crate::value::value(x, at, m) == crate::value::value(x_, at, n));
        }
        lemma_total(p, q, 0, (weight.shape.at(0) * weight.shape.at(2)) as nat, i, m, n);
    }
}

pub broadcast proof fn lemma_alike_layer_norm(
    x: Tensor,
    x_: Tensor,
    gamma: Tensor,
    gamma_: Tensor,
    beta: Tensor,
    beta_: Tensor,
    m: Reading,
    n: Reading,
)
    requires
        m.same_but_noise(n),
        alike(x, x_, m, n),
        alike(gamma, gamma_, m, n),
        alike(beta, beta_, m, n),
    ensures
        #[trigger] alike(x.layer_norm_expr(gamma, beta), x_.layer_norm_expr(gamma_, beta_), m, n),
{
    reveal(alike);
    reveal(Tensor::layer_norm_expr);
    let p = x.layer_norm_expr(gamma, beta);
    let q = x_.layer_norm_expr(gamma_, beta_);
    assert forall|idx: Seq<int>| #[trigger]
        crate::value::value(p, idx, m) == crate::value::value(q, idx, n) by {
        let i = crate::element::unstretched(p.shape, idx);
        assert(crate::value::value(x, i, m) == crate::value::value(x_, i, n));
        let at = seq![i[x.shape.rank() - 1]];
        assert(crate::value::value(gamma, at, m) == crate::value::value(gamma_, at, n));
        let at = seq![i[x.shape.rank() - 1]];
        assert(crate::value::value(beta, at, m) == crate::value::value(beta_, at, n));
        assert forall|k: int| 0 <= k < x.shape.at(x.shape.rank() - 1) as nat implies #[trigger]
            crate::value::summand(p, 0, k, i, m) == crate::value::summand(q, 0, k, i, n) by {
            let at = i.update(x.shape.rank() - 1, k);
            assert(crate::value::value(x, at, m) == crate::value::value(x_, at, n));
        }
        lemma_total(p, q, 0, x.shape.at(x.shape.rank() - 1) as nat, i, m, n);
        assert forall|k: int| 0 <= k < x.shape.at(x.shape.rank() - 1) as nat implies #[trigger]
            crate::value::summand(p, 1, k, i, m) == crate::value::summand(q, 1, k, i, n) by {
            let at = i.update(x.shape.rank() - 1, k);
            assert(crate::value::value(x, at, m) == crate::value::value(x_, at, n));
        }
        lemma_total(p, q, 1, x.shape.at(x.shape.rank() - 1) as nat, i, m, n);
    }
}

pub broadcast proof fn lemma_alike_embedding(
    x: Tensor,
    x_: Tensor,
    weight: Tensor,
    weight_: Tensor,
    m: Reading,
    n: Reading,
)
    requires
        m.same_but_noise(n),
        alike(x, x_, m, n),
        alike(weight, weight_, m, n),
    ensures
        #[trigger] alike(x.embedding_expr(weight), x_.embedding_expr(weight_), m, n),
{
    reveal(alike);
    reveal(Tensor::embedding_expr);
    let p = x.embedding_expr(weight);
    let q = x_.embedding_expr(weight_);
    assert forall|idx: Seq<int>| #[trigger]
        crate::value::value(p, idx, m) == crate::value::value(q, idx, n) by {
        let i = crate::element::unstretched(p.shape, idx);
        let at = seq![i[0], i[1]];
        assert(crate::value::value(x, at, m) == crate::value::value(x_, at, n));
        let at = seq![crate::value::value(x, seq![i[0], i[1]], m).floor(), i[2]];
        assert(crate::value::value(weight, at, m) == crate::value::value(weight_, at, n));
    }
}

pub broadcast proof fn lemma_alike_dropout(
    x: Tensor,
    x_: Tensor,
    probability: Real,
    m: Reading,
    n: Reading,
)
    requires
        m.same_but_noise(n),
        alike(x, x_, m, n),
    ensures
        #[trigger] alike(x.dropout_expr(probability), x_.dropout_expr(probability), m, n),
{
    reveal(alike);
    reveal(Tensor::dropout_expr);
    let p = x.dropout_expr(probability);
    let q = x_.dropout_expr(probability);
    assert forall|idx: Seq<int>| #[trigger]
        crate::value::value(p, idx, m) == crate::value::value(q, idx, n) by {
        let i = crate::element::unstretched(p.shape, idx);
        assert(crate::value::value(x, i, m) == crate::value::value(x_, i, n));
    }
}

pub broadcast proof fn lemma_alike_guard(
    x: Tensor,
    x_: Tensor,
    condition: Tensor,
    condition_: Tensor,
    m: Reading,
    n: Reading,
)
    requires
        m.same_but_noise(n),
        alike(x, x_, m, n),
        alike(condition, condition_, m, n),
    ensures
        #[trigger] alike(x.guard_expr(condition), x_.guard_expr(condition_), m, n),
{
    reveal(alike);
    reveal(Tensor::guard_expr);
    let p = x.guard_expr(condition);
    let q = x_.guard_expr(condition_);
    assert forall|idx: Seq<int>| #[trigger]
        crate::value::value(p, idx, m) == crate::value::value(q, idx, n) by {
        let i = crate::element::unstretched(p.shape, idx);
        assert(crate::value::value(x, i, m) == crate::value::value(x_, i, n));
    }
}

/// How recipes are alike by their parts.
pub broadcast group group_alike {
    lemma_alike_itself,
    lemma_alike_shape,
    lemma_alike_bias,
    lemma_alike_leaf,
    lemma_alike_unary,
    lemma_alike_scalar,
    lemma_alike_binary,
    lemma_alike_matmul,
    lemma_alike_reshape,
    lemma_alike_swap_dims,
    lemma_alike_flip,
    lemma_alike_pad,
    lemma_alike_slice,
    lemma_alike_slice_fill,
    lemma_alike_slice_assign,
    lemma_alike_cat,
    lemma_alike_gather,
    lemma_alike_mask_fill,
    lemma_alike_mask_where,
    lemma_alike_sum_dim,
    lemma_alike_cumsum,
    lemma_alike_softmax,
    lemma_alike_max,
    lemma_alike_triu,
    lemma_alike_tril,
    lemma_alike_conv1d,
    lemma_alike_conv_transpose1d,
    lemma_alike_layer_norm,
    lemma_alike_embedding,
    lemma_alike_dropout,
    lemma_alike_guard,
}

} // verus!

//! What convolutions and normalisations make of signals, in real numbers and by their parameters.

use crate::conv::{WNConv1d, WNConvTranspose1d, NORM_FLOOR};
use crate::nn::{Conv1d, Dropout, Embedding, LayerNorm};
use crate::number::{Scalar, TWO};
use crate::param::Param;
use crate::shape::Shape;
use crate::tensor::{ScalarOp, Tensor, UnaryOp, Window};
use crate::value::Reading;
use vstd::prelude::*;

verus! {

/// The value of a signal in a row, a channel and at a position.
pub open spec fn at(x: Tensor, b: int, c: int, t: int, m: Reading) -> real {
    crate::value::value(x, seq![b, c, t], m)
}

/// The value of a tensor of four dimensions.
pub open spec fn at4(x: Tensor, b: int, h: int, i: int, j: int, m: Reading) -> real {
    crate::value::value(x, seq![b, h, i, j], m)
}

/// The value of a signal, which is silent before its beginning and after its end.
pub open spec fn heard(x: Tensor, b: int, c: int, t: int, m: Reading) -> real {
    if 0 <= t < x.at(2) {
        at(x, b, c, t, m)
    } else {
        0real
    }
}

/// The value of a signal whose positions lie `stride` apart, with silence between them.
pub open spec fn spread(x: Tensor, b: int, c: int, t: int, stride: int, m: Reading) -> real {
    if t % stride == 0 {
        heard(x, b, c, t / stride, m)
    } else {
        0real
    }
}

/// A bias, or nothing where there is none.
pub open spec fn biased(bias: Option<Param>, o: int, m: Reading) -> real {
    match bias {
        Some(p) => (m.param)(p.path, seq![o]),
        None => 0real,
    }
}

/// The sum of the products of a table of weights with a table of values.
pub open spec fn weighed(
    rows: nat,
    columns: nat,
    weight: spec_fn(int, int) -> real,
    values: spec_fn(int, int) -> real,
) -> real {
    crate::value::sum(
        rows,
        |r: int| crate::value::sum(columns, |k: int| weight(r, k) * values(r, k)),
    )
}

/// A sum in two parts.
pub proof fn lemma_sum_split(a: nat, b: nat, row: spec_fn(int) -> real)
    ensures
        crate::value::sum(a + b, row) == crate::value::sum(a, row) + crate::value::sum(
            b,
            |k: int| row(a + k),
        ),
    decreases b,
{
    let rest = |k: int| row(a + k);
    if b > 0 {
        lemma_sum_split(a, (b - 1) as nat, row);
        assert(rest(b - 1) == row(a + b - 1));
    }
}

/// A sum row by row.
pub proof fn lemma_sum_rows(rows: nat, columns: nat, row: spec_fn(int) -> real)
    ensures
        crate::value::sum((rows * columns) as nat, row) == crate::value::sum(
            rows,
            |r: int| crate::value::sum(columns, |k: int| row(r * columns + k)),
        ),
    decreases rows,
{
    let by_row = |r: int| crate::value::sum(columns, |k: int| row(r * columns + k));
    if rows == 0 {
        assert(0 * columns == 0) by (nonlinear_arith);
    } else {
        let before = (rows - 1) as nat;
        lemma_sum_rows(before, columns, row);
        assert(before * columns + columns == rows * columns) by (nonlinear_arith)
            requires
                before == rows - 1,
        ;
        assert(before * columns >= 0) by (nonlinear_arith);
        lemma_sum_split((before * columns) as nat, columns, row);
        let one = |k: int| row((before * columns) as nat + k);
        let other = |k: int| row(before * columns + k);
        crate::value::lemma_same_sum(columns, one, other);
        assert(by_row(rows - 1) == crate::value::sum(columns, other));
    }
}

/// A sum over a table, counted row by row.
pub proof fn lemma_weighed(
    rows: nat,
    columns: nat,
    weight: spec_fn(int, int) -> real,
    values: spec_fn(int, int) -> real,
    flat: spec_fn(int) -> real,
)
    requires
        forall|r: int, k: int|
            0 <= r < rows && 0 <= k < columns ==> #[trigger] flat(r * columns + k) == weight(r, k)
                * values(r, k),
    ensures
        crate::value::sum((rows * columns) as nat, flat) == weighed(rows, columns, weight, values),
{
    lemma_sum_rows(rows, columns, flat);
    let by_row = |r: int| crate::value::sum(columns, |k: int| flat(r * columns + k));
    let wanted = |r: int| crate::value::sum(columns, |k: int| weight(r, k) * values(r, k));
    assert forall|r: int| 0 <= r < rows implies #[trigger] by_row(r) == wanted(r) by {
        let one = |k: int| flat(r * columns + k);
        let other = |k: int| weight(r, k) * values(r, k);
        assert forall|k: int| 0 <= k < columns implies #[trigger] one(k) == other(k) by {
            assert(flat(r * columns + k) == weight(r, k) * values(r, k));
        }
        crate::value::lemma_same_sum(columns, one, other);
    }
    crate::value::lemma_same_sum(rows, by_row, wanted);
}

/// The values of a parameter.
pub broadcast proof fn lemma_param_value(p: Param, idx: Seq<int>, m: Reading)
    requires
        crate::element::within(p.shape, idx),
    ensures
        #[trigger] crate::value::value(p.value_expr(), idx, m) == (m.param)(p.path, idx),
{
    reveal(Tensor::leaf_expr);
    crate::element::lemma_unstretched(p.shape, idx);
}

/// What one filter of a convolution makes at one position: the values that its taps meet, each
/// times its weight, and the bias.
proof fn lemma_conv1d_value(
    x: Tensor,
    weight: Tensor,
    bias: Option<Param>,
    window: Window,
    b: int,
    o: int,
    t: int,
    m: Reading,
)
    requires
        x.shape.rank() == 3,
        weight.shape.rank() == 3,
        crate::nn::bias_param_fits(bias, weight.at(0)),
        crate::element::within(
            crate::tensor::conv1d_shape(x.shape, weight.shape, window),
            seq![b, o, t],
        ),
    ensures
        ({
            let width = weight.at(1);
            let group = o / (weight.at(0) as int / window.groups as int);
            at(x.conv1d_expr(weight, Param::optional_value_expr(bias), window), b, o, t, m)
                == weighed(
                width as nat,
                weight.at(2) as nat,
                |c: int, k: int| crate::value::value(weight, seq![o, c, k], m),
                |c: int, k: int|
                    heard(
                        x,
                        b,
                        group * width + c,
                        t * window.stride + k * window.dilation - window.before,
                        m,
                    ),
            ) + biased(bias, o, m)
        }),
{
    reveal(Tensor::conv1d_expr);
    reveal(Tensor::leaf_expr);
    let y = x.conv1d_expr(weight, Param::optional_value_expr(bias), window);
    let idx = seq![b, o, t];
    crate::element::lemma_unstretched(y.shape, idx);
    let (width, taps) = (weight.at(1) as nat, weight.at(2) as nat);
    let group = o / (weight.at(0) as int / window.groups as int);
    let flat = |k: int| crate::value::summand(y, 0, k, idx, m);
    crate::value::lemma_total_is_sum(y, 0, (width * taps) as nat, idx, m, flat);
    let weights = |c: int, k: int| crate::value::value(weight, seq![o, c, k], m);
    let values = |c: int, k: int|
        heard(
            x,
            b,
            group * weight.at(1) + c,
            t * window.stride + k * window.dilation - window.before,
            m,
        );
    assert forall|c: int, k: int| 0 <= c < width && 0 <= k < taps implies #[trigger] flat(
        c * taps + k,
    ) == weights(c, k) * values(c, k) by {
        vstd::arithmetic::div_mod::lemma_fundamental_div_mod_converse(
            c * taps + k,
            taps as int,
            c,
            k,
        );
        assert(weights(c, k) * 0real == 0real) by (nonlinear_arith);
    }
    lemma_weighed(width, taps, weights, values, flat);
    if let Some(p) = bias {
        assert(crate::element::within(p.shape, seq![o]));
        crate::element::lemma_unstretched(p.shape, seq![o]);
        assert(crate::value::value(p.value_expr(), seq![o], m) == (m.param)(p.path, seq![o]));
    }
}

impl Conv1d {
    /// A convolution in real numbers: at each position, the values that the taps of a filter meet
    /// in the channels of its group, each times its weight, and the bias.
    pub proof fn lemma_value(self, x: Tensor, b: int, o: int, t: int, m: Reading)
        requires
            self.wf(),
            x.shape.rank() == 3,
            crate::element::within(self.shape_out(x.shape), seq![b, o, t]),
        ensures
            self.forward_expr(x).shape == self.shape_out(x.shape),
            ({
                let width = self.weight.shape.at(1);
                let group = o / (self.channels_out() as int / self.groups as int);
                at(self.forward_expr(x), b, o, t, m) == weighed(
                    width as nat,
                    self.kernel_size as nat,
                    |c: int, k: int| (m.param)(self.weight.path, seq![o, c, k]),
                    |c: int, k: int|
                        heard(
                            x,
                            b,
                            group * width + c,
                            t * self.stride + k * self.dilation - self.padding.before(),
                            m,
                        ),
                ) + biased(self.bias, o, m)
            }),
    {
        broadcast use lemma_param_value;

        assert(self.forward_expr(x).shape == self.shape_out(x.shape)) by {
            reveal(Tensor::conv1d_expr);
            reveal(Tensor::leaf_expr);
        }
        let weight = self.weight.value_expr();
        assert(weight.shape == self.weight.shape) by {
            reveal(Tensor::leaf_expr);
        }
        lemma_conv1d_value(x, weight, self.bias, self.window(), b, o, t, m);
        let width = self.weight.shape.at(1);
        let group = o / (self.channels_out() as int / self.groups as int);
        let weights = |c: int, k: int| crate::value::value(weight, seq![o, c, k], m);
        let learned = |c: int, k: int| (m.param)(self.weight.path, seq![o, c, k]);
        let values = |c: int, k: int|
            heard(
                x,
                b,
                group * width + c,
                t * self.stride + k * self.dilation - self.padding.before(),
                m,
            );
        assert forall|c: int, k: int|
            0 <= c < width && 0 <= k < self.kernel_size implies #[trigger] weights(c, k) == learned(
            c,
            k,
        ) by {
            assert(crate::element::within(self.weight.shape, seq![o, c, k]));
        }
        lemma_same_weighed(
            width as nat,
            self.kernel_size as nat,
            weights,
            learned,
            values,
            values,
        );
    }
}

/// Equal tables have equal sums.
pub proof fn lemma_same_weighed(
    rows: nat,
    columns: nat,
    weight: spec_fn(int, int) -> real,
    weight_: spec_fn(int, int) -> real,
    values: spec_fn(int, int) -> real,
    values_: spec_fn(int, int) -> real,
)
    requires
        forall|r: int, k: int|
            0 <= r < rows && 0 <= k < columns ==> #[trigger] weight(r, k) == weight_(r, k),
        forall|r: int, k: int|
            0 <= r < rows && 0 <= k < columns ==> #[trigger] values(r, k) == values_(r, k),
    ensures
        weighed(rows, columns, weight, values) == weighed(rows, columns, weight_, values_),
{
    let one = |r: int| crate::value::sum(columns, |k: int| weight(r, k) * values(r, k));
    let other = |r: int| crate::value::sum(columns, |k: int| weight_(r, k) * values_(r, k));
    assert forall|r: int| 0 <= r < rows implies #[trigger] one(r) == other(r) by {
        let a = |k: int| weight(r, k) * values(r, k);
        let c = |k: int| weight_(r, k) * values_(r, k);
        assert forall|k: int| 0 <= k < columns implies #[trigger] a(k) == c(k) by {
            assert(weight(r, k) == weight_(r, k));
            assert(values(r, k) == values_(r, k));
        }
        crate::value::lemma_same_sum(columns, a, c);
    }
    crate::value::lemma_same_sum(rows, one, other);
}


/// The norm of a filter along the first dimension of a parameter.
pub open spec fn filter_norm(v: Param, filter: int, m: Reading) -> real {
    (m.sqrt)(
        crate::value::sum(
            v.shape.at(1) as nat,
            |c: int|
                crate::value::sum(
                    v.shape.at(2) as nat,
                    |k: int|
                        (m.param)(v.path, seq![filter, c, k]) * (m.param)(
                            v.path,
                            seq![filter, c, k],
                        ),
                ),
        ),
    )
}

/// A weight given by a direction and a magnitude: the direction over the norm of the whole filter,
/// but for a floor, times the magnitude.
pub open spec fn normalized(v: Param, g: Param, filter: int, c: int, k: int, m: Reading) -> real {
    (m.param)(g.path, seq![filter, 0, 0]) * ((m.param)(v.path, seq![filter, c, k]) / (filter_norm(
        v,
        filter,
        m,
    ) + crate::number::double(NORM_FLOOR)))
}

proof fn lemma_filter_norm(v: Param, filter: int, m: Reading)
    requires
        v.shape.rank() == 3,
        0 <= filter < v.shape.at(0),
    ensures
        crate::conv::filter_norms_expr(v.value_expr()).shape == Shape::D3(v.shape.at(0), 1, 1),
        at(crate::conv::filter_norms_expr(v.value_expr()), filter, 0, 0, m) == filter_norm(
            v,
            filter,
            m,
        ),
{
    broadcast use {crate::value::group_elementwise, lemma_param_value};

    let x = v.value_expr();
    let powers = x.scalar_expr(ScalarOp::Powf, Scalar::literal_expr(TWO));
    let first = powers.sum_dim_expr(2);
    let second = first.sum_dim_expr(1);
    assert(x.shape == v.shape && powers.shape == v.shape && first.shape == v.shape.resized(2, 1)
        && second.shape == first.shape.resized(1, 1) && second.unary_expr(UnaryOp::Sqrt).shape
        == second.shape) by {
        reveal(Tensor::leaf_expr);
        reveal(Tensor::scalar_expr);
        reveal(Tensor::sum_dim_expr);
        reveal(Tensor::unary_expr);
    }
    crate::number::lemma_small_numbers();
    let origin = seq![filter, 0, 0];
    crate::value::lemma_sum_value(first, 1, origin, m);
    let rows = |c: int| crate::value::value(first, origin.update(1, c), m);
    let wanted = |c: int|
        crate::value::sum(
            v.shape.at(2) as nat,
            |k: int|
                (m.param)(v.path, seq![filter, c, k]) * (m.param)(v.path, seq![filter, c, k]),
        );
    assert forall|c: int| 0 <= c < v.shape.at(1) implies #[trigger] rows(c) == wanted(c) by {
        let there = origin.update(1, c);
        crate::value::lemma_sum_value(powers, 2, there, m);
        let cells = |k: int| crate::value::value(powers, there.update(2, k), m);
        let wanted_cells = |k: int|
            (m.param)(v.path, seq![filter, c, k]) * (m.param)(v.path, seq![filter, c, k]);
        assert forall|k: int| 0 <= k < v.shape.at(2) implies #[trigger] cells(k) == wanted_cells(
            k,
        ) by {
            assert(there.update(2, k) =~= seq![filter, c, k]);
            assert(crate::element::within(v.shape, seq![filter, c, k]));
        }
        crate::value::lemma_same_sum(v.shape.at(2) as nat, cells, wanted_cells);
    }
    crate::value::lemma_same_sum(v.shape.at(1) as nat, rows, wanted);
}

proof fn lemma_normalized(v: Param, g: Param, filter: int, c: int, k: int, m: Reading)
    requires
        v.shape.rank() == 3,
        g.shape == Shape::D3(v.shape.at(0), 1, 1),
        crate::element::within(v.shape, seq![filter, c, k]),
    ensures
        crate::conv::normalized_expr(v.value_expr(), g.value_expr()).shape == v.shape,
        at(crate::conv::normalized_expr(v.value_expr(), g.value_expr()), filter, c, k, m)
            == normalized(v, g, filter, c, k, m),
{
    broadcast use {crate::value::group_elementwise, lemma_param_value};

    let norms = crate::conv::filter_norms_expr(v.value_expr());
    let floored = norms.scalar_expr(ScalarOp::Add, Scalar::literal_expr(NORM_FLOOR));
    let (idx, origin) = (seq![filter, c, k], seq![filter, 0, 0]);
    assert(crate::element::within(v.shape, idx));
    assert(0 <= idx[0] < v.shape.at(0));
    lemma_filter_norm(v, filter, m);
    assert(floored.shape == norms.shape && v.value_expr().shape == v.shape && g.value_expr().shape
        == g.shape && v.value_expr().over_expr(floored).shape == v.shape
        && crate::conv::normalized_expr(v.value_expr(), g.value_expr()).shape == v.shape) by {
        reveal(Tensor::leaf_expr);
        reveal(Tensor::scalar_expr);
        reveal(Tensor::binary_expr);
    }
    assert(crate::element::unstretched(g.shape, idx) =~= crate::element::unstretched(
        g.shape,
        origin,
    ));
    crate::value::lemma_stretched(norms, idx, origin, m);
    crate::value::lemma_stretched(g.value_expr(), idx, origin, m);
    assert(crate::element::within(g.shape, origin));
}

impl WNConv1d {
    /// A layer that leaves signals as long as they are.
    pub proof fn lemma_shape(self, x: Tensor)
        requires
            x.shape.rank() == 3,
            x.at(2) >= 1,
            self.keeps_length(x.at(1), self.channels_out()),
            x.at(2) + self.padding + self.padding <= usize::MAX,
        ensures
            self.forward_expr(x).shape == Shape::D3(x.at(0), self.channels_out(), x.at(2)),
    {
        reveal(Tensor::leaf_expr);
        reveal(Tensor::scalar_expr);
        reveal(Tensor::binary_expr);
        reveal(Tensor::sum_dim_expr);
        reveal(Tensor::unary_expr);
        reveal(Tensor::pad_expr);
        reveal(Tensor::conv1d_expr);
        self.window().lemma_keeps_length(x.at(2), self.kernel_size());
    }

    /// A convolution with normalised weights in real numbers: at each position, the values that
    /// the taps of a filter meet in the channels of its group, each times its weight, and the
    /// bias.
    pub proof fn lemma_value(self, x: Tensor, b: int, o: int, t: int, m: Reading)
        requires
            self.wf(),
            x.shape.rank() == 3,
            x.at(1) == self.channels_in(),
            x.at(2) + self.padding + self.padding <= usize::MAX,
            crate::element::within(self.forward_expr(x).shape, seq![b, o, t]),
        ensures
            self.forward_expr(x).at(0) == x.at(0),
            self.forward_expr(x).at(1) == self.channels_out(),
            self.forward_expr(x).at(2) == self.window().steps(
                x.at(2),
                self.kernel_size(),
            ) as usize,
            ({
                let width = self.weight_v.shape.at(1);
                let group = o / (self.channels_out() as int / self.groups as int);
                at(self.forward_expr(x), b, o, t, m) == weighed(
                    width as nat,
                    self.kernel_size() as nat,
                    |c: int, k: int| normalized(self.weight_v, self.weight_g, o, c, k, m),
                    |c: int, k: int|
                        heard(
                            x,
                            b,
                            group * width + c,
                            t * self.stride + k * self.dilation - self.padding,
                            m,
                        ),
                ) + biased(self.bias, o, m)
            }),
    {
        let weight = crate::conv::normalized_expr(
            self.weight_v.value_expr(),
            self.weight_g.value_expr(),
        );
        let window = Window { before: 0, after: 0, ..self.window() };
        let padded = x.pad_expr(2, self.padding, self.padding);
        let idx = seq![b, o, t];
        assert(weight.shape == self.weight_v.shape) by {
            reveal(Tensor::leaf_expr);
            reveal(Tensor::scalar_expr);
            reveal(Tensor::binary_expr);
            reveal(Tensor::sum_dim_expr);
            reveal(Tensor::unary_expr);
        }
        assert(padded.shape == x.shape.resized(2, (x.at(2) + self.padding + self.padding) as usize))
            by {
            reveal(Tensor::pad_expr);
        }
        assert(self.forward_expr(x).shape == crate::tensor::conv1d_shape(
            padded.shape,
            weight.shape,
            window,
        )) by {
            reveal(Tensor::conv1d_expr);
        }
        assert(idx[0] == b && idx[1] == o && idx[2] == t);
        lemma_conv1d_value(padded, weight, self.bias, window, b, o, t, m);
        let width = self.weight_v.shape.at(1);
        let group = o / (self.channels_out() as int / self.groups as int);
        let weights = |c: int, k: int| crate::value::value(weight, seq![o, c, k], m);
        let learned = |c: int, k: int| normalized(self.weight_v, self.weight_g, o, c, k, m);
        let values = |c: int, k: int|
            heard(
                padded,
                b,
                group * weight.at(1) + c,
                t * window.stride + k * window.dilation - window.before,
                m,
            );
        let wanted = |c: int, k: int|
            heard(
                x,
                b,
                group * width + c,
                t * self.stride + k * self.dilation - self.padding,
                m,
            );
        assert forall|c: int, k: int|
            0 <= c < width && 0 <= k < self.kernel_size() implies #[trigger] weights(c, k)
            == learned(c, k) by {
            assert(crate::element::within(self.weight_v.shape, seq![o, c, k]));
            lemma_normalized(self.weight_v, self.weight_g, o, c, k, m);
        }
        assert forall|c: int, k: int|
            0 <= c < width && 0 <= k < self.kernel_size() implies #[trigger] values(c, k) == wanted(
            c,
            k,
        ) by {
            let place = t * self.stride + k * self.dilation;
            crate::inverse::lemma_group(
                o,
                self.channels_out() as int,
                self.groups as int,
                width as int,
                c,
            );
            if 0 <= place < padded.at(2) {
                let there = seq![b, group * width + c, place];
                assert(crate::element::within(padded.shape, there));
                crate::value::lemma_pad_value(x, 2, self.padding, self.padding, there, m);
                assert(there.update(2, place - self.padding) =~= seq![
                    b,
                    group * width + c,
                    place - self.padding,
                ]);
            }
        }
        lemma_same_weighed(
            width as nat,
            self.kernel_size() as nat,
            weights,
            learned,
            values,
            wanted,
        );
    }
}

impl WNConvTranspose1d {
    /// A transposed convolution with normalised weights in real numbers: the positions of the
    /// signal are spread as far apart as the stride says, and the taps of a filter meet them from
    /// the right to the left.
    pub proof fn lemma_value(self, x: Tensor, b: int, o: int, t: int, m: Reading)
        requires
            self.wf(),
            x.shape.rank() == 3,
            self.stride >= 1,
            crate::element::within(self.forward_expr(x).shape, seq![b, o, t]),
        ensures
            self.forward_expr(x).at(0) == x.at(0),
            self.forward_expr(x).at(1) == self.channels_out(),
            self.forward_expr(x).at(2) == self.length_out(x.at(2)) as usize,
            at(self.forward_expr(x), b, o, t, m) == weighed(
                self.channels_in() as nat,
                self.kernel_size() as nat,
                |c: int, k: int|
                    (m.param)(self.weight_g.path, seq![c, 0, 0]) * ((m.param)(
                        self.weight_v.path,
                        seq![c, o, k],
                    ) / (filter_norm(self.weight_v, c, m) + crate::number::double(NORM_FLOOR))),
                |c: int, k: int| spread(x, b, c, t + self.padding - k, self.stride as int, m),
            ) + biased(self.bias, o, m),
    {
        reveal(Tensor::conv_transpose1d_expr);
        let weight = crate::conv::normalized_expr(
            self.weight_v.value_expr(),
            self.weight_g.value_expr(),
        );
        let idx = seq![b, o, t];
        assert(weight.shape == self.weight_v.shape) by {
            reveal(Tensor::leaf_expr);
            reveal(Tensor::scalar_expr);
            reveal(Tensor::binary_expr);
            reveal(Tensor::sum_dim_expr);
            reveal(Tensor::unary_expr);
        }
        let y = self.forward_expr(x);
        assert(idx[0] == b && idx[1] == o && idx[2] == t);
        crate::element::lemma_unstretched(y.shape, idx);
        let (width, taps) = (weight.at(0) as nat, weight.at(2) as nat);
        let flat = |k: int| crate::value::summand(y, 0, k, idx, m);
        crate::value::lemma_total_is_sum(y, 0, (width * taps) as nat, idx, m, flat);
        let weights = |c: int, k: int|
            (m.param)(self.weight_g.path, seq![c, 0, 0]) * ((m.param)(
                self.weight_v.path,
                seq![c, o, k],
            ) / (filter_norm(self.weight_v, c, m) + crate::number::double(NORM_FLOOR)));
        let values = |c: int, k: int|
            spread(x, b, c, t + self.padding - k, self.stride as int, m);
        assert forall|c: int, k: int| 0 <= c < width && 0 <= k < taps implies #[trigger] flat(
            c * taps + k,
        ) == weights(c, k) * values(c, k) by {
            vstd::arithmetic::div_mod::lemma_fundamental_div_mod_converse(
                c * taps + k,
                taps as int,
                c,
                k,
            );
            assert(weights(c, k) * 0real == 0real) by (nonlinear_arith);
            assert(crate::element::within(self.weight_v.shape, seq![c, o, k]));
            lemma_normalized(self.weight_v, self.weight_g, c, o, k, m);
        }
        lemma_weighed(width, taps, weights, values, flat);
        if let Some(p) = self.bias {
            assert(crate::element::within(p.shape, seq![o]));
            lemma_param_value(p, seq![o], m);
        }
    }
}

/// The values with two dimensions exchanged.
pub proof fn lemma_swap_value(x: Tensor, i: usize, j: usize, idx: Seq<int>, m: Reading)
    requires
        crate::element::within(x.shape.swapped(i as int, j as int), idx),
    ensures
        x.swap_dims_expr(i, j).shape == x.shape.swapped(i as int, j as int),
        crate::value::value(x.swap_dims_expr(i, j), idx, m) == crate::value::value(
            x,
            crate::value::swapped(idx, i as int, j as int),
            m,
        ),
{
    reveal(Tensor::swap_dims_expr);
    crate::element::lemma_unstretched(x.shape.swapped(i as int, j as int), idx);
}

/// The mean of the channels of a signal at a position.
pub open spec fn mean(x: Tensor, b: int, t: int, m: Reading) -> real {
    crate::value::sum(x.at(1) as nat, |c: int| at(x, b, c, t, m)) / (x.at(1) as int as real)
}

/// The mean squared distance of the channels of a signal from their mean.
pub open spec fn variance(x: Tensor, b: int, t: int, m: Reading) -> real {
    crate::value::sum(
        x.at(1) as nat,
        |c: int| (at(x, b, c, t, m) - mean(x, b, t, m)) * (at(x, b, c, t, m) - mean(x, b, t, m)),
    ) / (x.at(1) as int as real)
}

impl LayerNorm {
    /// A normalisation in real numbers: the distance from the mean of the channels, over their
    /// deviation, scaled and shifted as was learned for the channel.
    pub proof fn lemma_value(self, x: Tensor, b: int, c: int, t: int, m: Reading)
        requires
            x.shape.rank() == 3,
            self.features(x.at(1)),
            crate::element::within(x.shape, seq![b, c, t]),
        ensures
            self.over_channels_expr(x).shape == x.shape,
            at(self.over_channels_expr(x), b, c, t, m) == (at(x, b, c, t, m) - mean(x, b, t, m)) / (
            m.sqrt)(variance(x, b, t, m) + crate::number::double(crate::value::NORM_EPSILON)) * (
            m.param)(self.gamma.path, seq![c]) + (m.param)(self.beta.path, seq![c]),
    {
        reveal(Tensor::layer_norm_expr);
        let turned = x.swap_dims_expr(1, 2);
        let normed = turned.layer_norm_expr(self.gamma.value_expr(), self.beta.value_expr());
        let (idx, back) = (seq![b, c, t], seq![b, t, c]);
        assert(idx[0] == b && idx[1] == c && idx[2] == t);
        assert(turned.shape == x.shape.swapped(1, 2)) by {
            reveal(Tensor::swap_dims_expr);
        }
        assert(x.shape.swapped(1, 2).swapped(2, 1) == x.shape);
        assert(crate::element::within(turned.shape, back));
        lemma_swap_value(normed, 2, 1, idx, m);
        assert(crate::value::swapped(idx, 2, 1) =~= back);
        crate::element::lemma_unstretched(turned.shape, back);
        let n = x.at(1) as nat;
        let all = |k: int| at(x, b, k, t, m);
        assert forall|k: int| 0 <= k < n implies #[trigger] crate::value::value(
            turned,
            back.update(2, k),
            m,
        ) == all(k) by {
            assert(crate::element::within(turned.shape, back.update(2, k)));
            lemma_swap_value(x, 1, 2, back.update(2, k), m);
            assert(crate::value::swapped(back.update(2, k), 1, 2) =~= seq![b, k, t]);
        }
        assert forall|k: int| 0 <= k < n implies #[trigger] crate::value::summand(
            normed,
            0,
            k,
            back,
            m,
        ) == all(k) by {
            assert(crate::value::value(turned, back.update(2, k), m) == all(k));
        }
        crate::value::lemma_total_is_sum(normed, 0, n, back, m, all);
        let squared = |k: int|
            (at(x, b, k, t, m) - mean(x, b, t, m)) * (at(x, b, k, t, m) - mean(x, b, t, m));
        assert forall|k: int| 0 <= k < n implies #[trigger] crate::value::summand(
            normed,
            1,
            k,
            back,
            m,
        ) == squared(k) by {
            assert(crate::value::value(turned, back.update(2, k), m) == all(k));
        }
        crate::value::lemma_total_is_sum(normed, 1, n, back, m, squared);
        assert(back.update(2, c) =~= back);
        assert(crate::value::value(turned, back.update(2, c), m) == all(c));
        lemma_param_value(self.gamma, seq![c], m);
        lemma_param_value(self.beta, seq![c], m);
    }
}

impl Embedding {
    /// The vector at an index is the row of the table that the index tells.
    pub proof fn lemma_value(self, ids: Tensor, b: int, t: int, c: int, m: Reading)
        requires
            ids.shape.rank() == 2,
            self.weight.shape.rank() == 2,
            0 <= b < ids.at(0),
            0 <= t < ids.at(1),
            0 <= c < self.weight.shape.at(1),
            0real <= crate::value::value(ids, seq![b, t], m) < self.weight.shape.at(
                0,
            ) as int as real,
        ensures
            self.forward_expr(ids).shape == Shape::D3(
                ids.at(0),
                ids.at(1),
                self.weight.shape.at(1),
            ),
            at(self.forward_expr(ids), b, t, c, m) == (m.param)(
                self.weight.path,
                seq![crate::value::value(ids, seq![b, t], m).floor(), c],
            ),
    {
        reveal(Tensor::embedding_expr);
        reveal(Tensor::leaf_expr);
        let idx = seq![b, t, c];
        let y = self.forward_expr(ids);
        assert(crate::element::within(y.shape, idx));
        crate::element::lemma_unstretched(y.shape, idx);
        assert(seq![idx[0], idx[1]] =~= seq![b, t]);
        lemma_param_value(
            self.weight,
            seq![crate::value::value(ids, seq![b, t], m).floor(), c],
            m,
        );
    }
}

impl Dropout {
    /// Nothing is dropped when a voice speaks.
    pub broadcast proof fn lemma_value(self, x: Tensor, idx: Seq<int>, m: Reading)
        ensures
            #[trigger] crate::value::value(self.forward_expr(x), idx, m) == crate::value::value(
                x,
                idx,
                m,
            ),
    {
        reveal(Tensor::dropout_expr);
        assert(crate::element::unstretched(x.shape, crate::element::unstretched(x.shape, idx))
            =~= crate::element::unstretched(x.shape, idx));
        crate::value::lemma_stretched(x, crate::element::unstretched(x.shape, idx), idx, m);
    }
}

/// A product of matrices: the entries of a row times those of a column, added up.
pub proof fn lemma_matmul_value(x: Tensor, y: Tensor, idx: Seq<int>, m: Reading)
    requires
        crate::element::within(crate::tensor::product_shape(x.shape, y.shape), idx),
    ensures
        x.matmul_expr(y).shape == crate::tensor::product_shape(x.shape, y.shape),
        crate::value::value(x.matmul_expr(y), idx, m) == crate::value::sum(
            x.shape.at(x.shape.rank() - 1) as nat,
            |k: int|
                crate::value::value(x, idx.update(x.shape.rank() - 1, k), m)
                    * crate::value::value(y, idx.update(x.shape.rank() - 2, k), m),
        ),
{
    reveal(Tensor::matmul_expr);
    let t = x.matmul_expr(y);
    crate::element::lemma_unstretched(t.shape, idx);
    let n = x.shape.at(x.shape.rank() - 1) as nat;
    let row = |k: int|
        crate::value::value(x, idx.update(x.shape.rank() - 1, k), m) * crate::value::value(
            y,
            idx.update(x.shape.rank() - 2, k),
            m,
        );
    assert forall|k: int| 0 <= k < n implies #[trigger] crate::value::summand(t, 0, k, idx, m)
        == row(k) by {}
    crate::value::lemma_total_is_sum(t, 0, n, idx, m, row);
}

} // verus!

//! What the text encoder makes of phonemes, in real numbers.

use crate::attention::{FFN, GELU_FACTOR};
use crate::encoder::{Encoder, TextEncoder};
use crate::nn::Conv1d;
use crate::number::Scalar;
use crate::shape::Shape;
use crate::tensor::{BinaryOp, ScalarOp, Tensor, UnaryOp};
use crate::value::Reading;
use vstd::prelude::*;

verus! {

/// What the filters of a convolution make of a signal when they begin `before` positions early.
pub open spec fn filtered(
    conv: Conv1d,
    x: Tensor,
    before: int,
    b: int,
    o: int,
    t: int,
    m: Reading,
) -> real {
    let width = conv.weight.shape.at(1);
    let group = o / (conv.channels_out() as int / conv.groups as int);
    crate::signals::weighed(
        width as nat,
        conv.kernel_size as nat,
        |c: int, k: int| (m.param)(conv.weight.path, seq![o, c, k]),
        |c: int, k: int|
            crate::signals::heard(x, b, group * width + c, t + k - before, m),
    ) + crate::signals::biased(conv.bias, o, m)
}

impl FFN {
    /// By how many positions the filters begin early: so far that no position sees one after it,
    /// or else as many as they end late, or one less.
    pub open spec fn early(self) -> int {
        if self.causal {
            self.kernel_size - 1
        } else {
            (self.kernel_size - 1) / 2
        }
    }

    /// What a value becomes between the convolutions.
    pub open spec fn activated(self, a: real, m: Reading) -> real {
        if self.activation@ == "gelu"@ {
            a * (m.sigmoid)(a * crate::number::double(GELU_FACTOR))
        } else {
            crate::value::greater(a, 0real)
        }
    }

    proof fn lemma_filtered(
        self,
        conv: Conv1d,
        x: Tensor,
        b: int,
        o: int,
        t: int,
        m: Reading,
    )
        requires
            x.shape.rank() == 3,
            x.at(2) >= 1,
            self.kernel_size >= 1,
            x.at(2) + self.kernel_size <= usize::MAX,
            conv.unpadded(x.at(1), conv.channels_out(), self.kernel_size),
            0 <= b < x.at(0),
            0 <= o < conv.channels_out(),
            0 <= t < x.at(2),
        ensures
            conv.forward_expr(self.padded_expr(x)).shape == Shape::D3(
                x.at(0),
                conv.channels_out(),
                x.at(2),
            ),
            crate::signals::at(conv.forward_expr(self.padded_expr(x)), b, o, t, m) == filtered(
                conv,
                x,
                self.early(),
                b,
                o,
                t,
                m,
            ),
    {
        let padded = self.padded_expr(x);
        let before = self.early();
        self.lemma_padded(x);
        conv.lemma_unpadded(padded.shape, x.at(2));
        assert(crate::element::within(conv.shape_out(padded.shape), seq![b, o, t]));
        conv.lemma_value(padded, b, o, t, m);
        let width = conv.weight.shape.at(1);
        let group = o / (conv.channels_out() as int / conv.groups as int);
        let weights = |c: int, k: int| (m.param)(conv.weight.path, seq![o, c, k]);
        let one = |c: int, k: int|
            crate::signals::heard(
                padded,
                b,
                group * width + c,
                t * conv.stride + k * conv.dilation - conv.padding.before(),
                m,
            );
        let other = |c: int, k: int|
            crate::signals::heard(x, b, group * width + c, t + k - before, m);
        assert forall|c: int, k: int|
            0 <= c < width && 0 <= k < conv.kernel_size implies #[trigger] one(c, k) == other(
            c,
            k,
        ) by {
            assert(t * conv.stride == t && k * conv.dilation == k) by (nonlinear_arith)
                requires
                    conv.stride == 1,
                    conv.dilation == 1,
            ;
            crate::inverse::lemma_group(
                o,
                conv.channels_out() as int,
                conv.groups as int,
                width as int,
                c,
            );
            let idx = seq![b, group * width + c, t + k];
            assert(crate::element::within(padded.shape, idx));
            if self.kernel_size > 1 {
                let after = self.kernel_size - 1 - before;
                assert(padded == x.pad_expr(2, before as usize, after as usize));
                crate::value::lemma_pad_value(x, 2, before as usize, after as usize, idx, m);
                assert(idx.update(2, t + k - before) =~= seq![
                    b,
                    group * width + c,
                    t + k - before,
                ]);
            }
        }
        crate::signals::lemma_same_weighed(
            width as nat,
            conv.kernel_size as nat,
            weights,
            weights,
            one,
            other,
        );
    }

    proof fn lemma_padded(self, x: Tensor)
        requires
            x.shape.rank() == 3,
            self.kernel_size >= 1,
            x.at(2) + self.kernel_size <= usize::MAX,
        ensures
            self.padded_expr(x).shape == Shape::D3(
                x.at(0),
                x.at(1),
                (x.at(2) + self.kernel_size - 1) as usize,
            ),
    {
        reveal(Tensor::pad_expr);
    }

    /// The layer between attentions in real numbers: a convolution over several positions, its
    /// activation, and another convolution, each of what lies within the mask; and the mask once
    /// more.
    pub proof fn lemma_value(self, x: Tensor, x_mask: Tensor, m: Reading) -> (r: (
        Tensor,
        Tensor,
    ))
        requires
            x.shape.rank() == 3,
            x.at(2) >= 1,
            x.at(2) + self.kernel_size <= usize::MAX,
            self.wf(x.at(1), self.filter_channels(), self.out_channels()),
            x_mask.shape.rank() == 3,
            x_mask.at(0) == 1 || x_mask.at(0) == x.at(0),
            x_mask.at(1) == 1,
            x_mask.at(2) == 1 || x_mask.at(2) == x.at(2),
        ensures
            ({
                let (entry, between) = r;
                let y = self.forward_expr(x, x_mask);
                &&& entry.shape == x.shape
                &&& forall|b: int, c: int, t: int| #[trigger]
                    crate::signals::at(entry, b, c, t, m) == crate::signals::at(x, b, c, t, m)
                        * crate::signals::at(x_mask, b, c, t, m)
                &&& between.shape == Shape::D3(x.at(0), self.filter_channels(), x.at(2))
                &&& forall|b: int, c: int, t: int|
                    0 <= b < x.at(0) && 0 <= c < self.filter_channels() && 0 <= t < x.at(2)
                        ==> #[trigger] crate::signals::at(between, b, c, t, m) == self.activated(
                        filtered(self.conv_1, entry, self.early(), b, c, t, m),
                        m,
                    ) * crate::signals::at(x_mask, b, c, t, m)
                &&& y.shape == Shape::D3(x.at(0), self.out_channels(), x.at(2))
                &&& forall|b: int, c: int, t: int|
                    0 <= b < x.at(0) && 0 <= c < self.out_channels() && 0 <= t < x.at(2)
                        ==> #[trigger] crate::signals::at(y, b, c, t, m) == filtered(
                        self.conv_2,
                        between,
                        self.early(),
                        b,
                        c,
                        t,
                        m,
                    ) * crate::signals::at(x_mask, b, c, t, m)
            }),
    {
        let entry = x.times_expr(x_mask);
        let h = self.conv_1.forward_expr(self.padded_expr(entry));
        let act = self.activated_expr(h);
        let dropped = self.drop.forward_expr(act);
        let between = dropped.times_expr(x_mask);
        let last = self.conv_2.forward_expr(self.padded_expr(between));
        let y = self.forward_expr(x, x_mask);
        let wide = Shape::D3(x.at(0), self.filter_channels(), x.at(2));
        assert(entry.shape == x.shape) by {
            reveal(Tensor::binary_expr);
        }
        self.lemma_padded(entry);
        self.conv_1.lemma_unpadded(self.padded_expr(entry).shape, x.at(2));
        assert(h.shape == wide) by {
            reveal(Tensor::leaf_expr);
            reveal(Tensor::conv1d_expr);
        }
        assert(act.shape == wide && dropped.shape == wide && between.shape == wide) by {
            reveal(Tensor::binary_expr);
            reveal(Tensor::scalar_expr);
            reveal(Tensor::unary_expr);
            reveal(Tensor::dropout_expr);
        }
        self.lemma_padded(between);
        self.conv_2.lemma_unpadded(self.padded_expr(between).shape, x.at(2));
        assert(last.shape == Shape::D3(x.at(0), self.out_channels(), x.at(2)) && y.shape
            == last.shape) by {
            reveal(Tensor::leaf_expr);
            reveal(Tensor::conv1d_expr);
            reveal(Tensor::binary_expr);
        }
        assert forall|b: int, c: int, t: int| #[trigger]
            crate::signals::at(entry, b, c, t, m) == crate::signals::at(x, b, c, t, m)
                * crate::signals::at(x_mask, b, c, t, m) by {
            crate::value::lemma_binary_value(x, BinaryOp::Mul, x_mask, seq![b, c, t], m);
        }
        assert forall|b: int, c: int, t: int|
            0 <= b < x.at(0) && 0 <= c < self.filter_channels() && 0 <= t < x.at(
                2,
            ) implies #[trigger] crate::signals::at(between, b, c, t, m) == self.activated(
            filtered(self.conv_1, entry, self.early(), b, c, t, m),
            m,
        ) * crate::signals::at(x_mask, b, c, t, m) by {
            broadcast use crate::value::group_elementwise;

            let idx = seq![b, c, t];
            self.lemma_filtered(self.conv_1, entry, b, c, t, m);
            self.drop.lemma_value(act, idx, m);
            let scaled = h.scalar_expr(ScalarOp::Mul, Scalar::literal_expr(GELU_FACTOR));
            assert(scaled.unary_expr(UnaryOp::Sigmoid).shape.rank() == 3) by {
                reveal(Tensor::scalar_expr);
                reveal(Tensor::unary_expr);
            }
        }
        assert forall|b: int, c: int, t: int|
            0 <= b < x.at(0) && 0 <= c < self.out_channels() && 0 <= t < x.at(
                2,
            ) implies #[trigger] crate::signals::at(y, b, c, t, m) == filtered(
            self.conv_2,
            between,
            self.early(),
            b,
            c,
            t,
            m,
        ) * crate::signals::at(x_mask, b, c, t, m) by {
            self.lemma_filtered(self.conv_2, between, b, c, t, m);
            crate::value::lemma_binary_value(last, BinaryOp::Mul, x_mask, seq![b, c, t], m);
        }
        (entry, between)
    }
}

impl Encoder {
    /// The mask of attention: both positions lie within the mask.
    proof fn lemma_attn_mask(
        x_mask: Tensor,
        b: int,
        h: int,
        i: int,
        j: int,
        m: Reading,
    )
        requires
            x_mask.shape == Shape::D3(x_mask.at(0), 1, x_mask.at(2)),
            x_mask.at(0) == 1 || 0 <= b < x_mask.at(0),
            x_mask.at(2) == 1 || 0 <= i < x_mask.at(2) && 0 <= j < x_mask.at(2),
        ensures
            Encoder::attn_mask_expr(x_mask).shape == Shape::D4(
                x_mask.at(0),
                1,
                x_mask.at(2),
                x_mask.at(2),
            ),
            crate::value::value(Encoder::attn_mask_expr(x_mask), seq![b, h, i, j], m)
                == crate::signals::at(x_mask, b, 0, i, m) * crate::signals::at(
                x_mask,
                b,
                0,
                j,
                m,
            ),
    {
        let wide = x_mask.unsqueeze_expr(2);
        let tall = x_mask.unsqueeze_expr(3);
        let (rows, length) = (x_mask.at(0), x_mask.at(2));
        assert(wide.shape == Shape::D4(rows, 1, 1, length) && tall.shape == Shape::D4(
            rows,
            1,
            length,
            1,
        ) && wide.times_expr(tall).shape == Shape::D4(rows, 1, length, length)) by {
            reveal(Tensor::reshape_expr);
            reveal(Tensor::binary_expr);
        }
        let idx = seq![b, h, i, j];
        crate::value::lemma_binary_value(wide, BinaryOp::Mul, tall, idx, m);
        let row = if rows == 1 {
            0
        } else {
            b
        };
        let (p, q) = if length == 1 {
            (0, 0)
        } else {
            (i, j)
        };
        let (left, right) = (seq![row, 0, 0, q], seq![row, 0, p, 0]);
        assert(crate::element::within(wide.shape, left) && crate::element::within(
            x_mask.shape,
            seq![row, 0, q],
        ));
        assert(crate::element::within(tall.shape, right) && crate::element::within(
            x_mask.shape,
            seq![row, 0, p],
        ));
        assert(row * 1 + 0 == row);
        crate::value::lemma_reshape_value(x_mask, wide.shape, left, seq![row, 0, q], m);
        crate::value::lemma_reshape_value(x_mask, tall.shape, right, seq![row, 0, p], m);
        assert(crate::element::unstretched(wide.shape, idx) =~= crate::element::unstretched(
            wide.shape,
            left,
        ));
        assert(crate::element::unstretched(tall.shape, idx) =~= crate::element::unstretched(
            tall.shape,
            right,
        ));
        crate::value::lemma_stretched(wide, idx, left, m);
        crate::value::lemma_stretched(tall, idx, right, m);
        assert(crate::element::unstretched(x_mask.shape, seq![b, 0, j])
            =~= crate::element::unstretched(x_mask.shape, seq![row, 0, q]));
        assert(crate::element::unstretched(x_mask.shape, seq![b, 0, i])
            =~= crate::element::unstretched(x_mask.shape, seq![row, 0, p]));
        crate::value::lemma_stretched(x_mask, seq![b, 0, j], seq![row, 0, q], m);
        crate::value::lemma_stretched(x_mask, seq![b, 0, i], seq![row, 0, p], m);
        let (u, v) = (
            crate::signals::at(x_mask, b, 0, j, m),
            crate::signals::at(x_mask, b, 0, i, m),
        );
        assert(u * v == v * u) by (nonlinear_arith);
    }

    /// Whether a signal can be encoded under a mask.
    pub open spec fn takes(self, x: Tensor, x_mask: Tensor) -> bool {
        &&& x.shape.rank() == 3
        &&& self.wf(x.at(1))
        &&& self.takes_length(x.at(2))
        &&& x_mask.shape == Shape::D3(x_mask.at(0), 1, x_mask.at(2))
        &&& x_mask.at(0) == 1 || x_mask.at(0) == x.at(0)
        &&& x_mask.at(2) == 1 || x_mask.at(2) == x.at(2)
    }

    proof fn lemma_layer_shape(self, i: int, x: Tensor, x_mask: Tensor)
        requires
            self.takes(x, x_mask),
            0 <= i < self.attn_layers.len(),
        ensures
            ({
                let y = self.attn_layers@[i].forward_expr(
                    x,
                    x,
                    Some(Encoder::attn_mask_expr(x_mask)),
                );
                let sum = x.plus_expr(self.drop.forward_expr(y));
                let mid = self.norm_layers_1@[i].over_channels_expr(sum);
                let f = self.ffn_layers@[i].forward_expr(mid, x_mask);
                let again = mid.plus_expr(self.drop.forward_expr(f));
                &&& y.shape == x.shape && sum.shape == x.shape && mid.shape == x.shape
                &&& f.shape == x.shape && again.shape == x.shape
                &&& self.drop.forward_expr(y).shape == x.shape
                &&& self.drop.forward_expr(f).shape == x.shape
                &&& self.norm_layers_2@[i].over_channels_expr(again).shape == x.shape
            }),
    {
        assert(self.layer_fits(i, x.at(1)));
        let attn = self.attn_layers@[i];
        let ffn = self.ffn_layers@[i];
        let y = attn.forward_expr(x, x, Some(Encoder::attn_mask_expr(x_mask)));
        attn.conv_q.lemma_shape(x);
        attn.conv_k.lemma_shape(x);
        let inner = attn.attention_expr(
            attn.conv_q.forward_expr(x),
            attn.conv_k.forward_expr(x),
            attn.conv_v.forward_expr(x),
            Some(Encoder::attn_mask_expr(x_mask)),
        ).0;
        assert(inner.shape == x.shape) by {
            reveal(Tensor::reshape_expr);
        }
        attn.conv_o.lemma_shape(inner);
        let sum = x.plus_expr(self.drop.forward_expr(y));
        let mid = self.norm_layers_1@[i].over_channels_expr(sum);
        assert(self.drop.forward_expr(y).shape == x.shape && sum.shape == x.shape && mid.shape
            == x.shape) by {
            reveal(Tensor::binary_expr);
            reveal(Tensor::dropout_expr);
            reveal(Tensor::swap_dims_expr);
            reveal(Tensor::layer_norm_expr);
        }
        assert(attn.takes_lengths(x.at(2), x.at(2)) && x.at(2) + ffn.kernel_size <= usize::MAX);
        let m = arbitrary();
        let f = ffn.forward_expr(mid, x_mask);
        let r = ffn.lemma_value(mid, x_mask, m);
        reveal(Tensor::binary_expr);
        reveal(Tensor::dropout_expr);
        reveal(Tensor::swap_dims_expr);
        reveal(Tensor::layer_norm_expr);
    }

    proof fn lemma_after_shape(self, n: nat, x: Tensor, x_mask: Tensor)
        requires
            self.takes(x, x_mask),
            n <= self.attn_layers.len(),
        ensures
            self.after_expr(n, x, x_mask).shape == x.shape,
        decreases n,
    {
        if n > 0 {
            self.lemma_after_shape((n - 1) as nat, x, x_mask);
            self.lemma_layer_shape(
                n - 1,
                self.after_expr((n - 1) as nat, x, x_mask),
                x_mask,
            );
        }
    }

    /// The signal with what attention gathers added.
    #[verifier::opaque]
    spec fn sum_expr(self, i: int, x: Tensor, x_mask: Tensor) -> Tensor {
        x.plus_expr(
            self.drop.forward_expr(
                self.attn_layers@[i].forward_expr(x, x, Some(Encoder::attn_mask_expr(x_mask))),
            ),
        )
    }

    /// A normalised signal with what the layer between attentions makes of it added.
    #[verifier::opaque]
    spec fn again_expr(self, i: int, x: Tensor, x_mask: Tensor) -> Tensor {
        let mid = self.norm_layers_1@[i].over_channels_expr(x);
        mid.plus_expr(self.drop.forward_expr(self.ffn_layers@[i].forward_expr(mid, x_mask)))
    }

    proof fn lemma_layer(
        self,
        i: int,
        x: Tensor,
        x_mask: Tensor,
        b: int,
        c: int,
        t: int,
        m: Reading,
    )
        requires
            self.takes(x, x_mask),
            0 <= i < self.attn_layers.len(),
        ensures
            ({
                let sum = self.sum_expr(i, x, x_mask);
                let mid = self.norm_layers_1@[i].over_channels_expr(sum);
                let again = self.again_expr(i, sum, x_mask);
                &&& sum.shape == x.shape
                &&& again.shape == x.shape
                &&& crate::signals::at(sum, b, c, t, m) == crate::signals::at(x, b, c, t, m)
                    + crate::signals::at(
                    self.attn_layers@[i].forward_expr(
                        x,
                        x,
                        Some(Encoder::attn_mask_expr(x_mask)),
                    ),
                    b,
                    c,
                    t,
                    m,
                )
                &&& crate::signals::at(again, b, c, t, m) == crate::signals::at(mid, b, c, t, m)
                    + crate::signals::at(
                    self.ffn_layers@[i].forward_expr(mid, x_mask),
                    b,
                    c,
                    t,
                    m,
                )
            }),
    {
        reveal(Encoder::sum_expr);
        reveal(Encoder::again_expr);
        self.lemma_layer_shape(i, x, x_mask);
        let y = self.attn_layers@[i].forward_expr(x, x, Some(Encoder::attn_mask_expr(x_mask)));
        let mid = self.norm_layers_1@[i].over_channels_expr(self.sum_expr(i, x, x_mask));
        let f = self.ffn_layers@[i].forward_expr(mid, x_mask);
        let idx = seq![b, c, t];
        self.drop.lemma_value(y, idx, m);
        self.drop.lemma_value(f, idx, m);
        crate::value::lemma_binary_value(x, BinaryOp::Add, self.drop.forward_expr(y), idx, m);
        crate::value::lemma_binary_value(mid, BinaryOp::Add, self.drop.forward_expr(f), idx, m);
    }

    proof fn lemma_next(self, n: nat, x: Tensor, x_mask: Tensor)
        ensures
            self.after_expr(n + 1, x, x_mask) == self.norm_layers_2@[n as int].over_channels_expr(
                self.again_expr(
                    n as int,
                    self.sum_expr(n as int, self.after_expr(n, x, x_mask), x_mask),
                    x_mask,
                ),
            ),
    {
        reveal(Encoder::sum_expr);
        reveal(Encoder::again_expr);
    }

    /// The encoder in real numbers. Each layer adds to the signal what attention of the signal to
    /// itself gathers, among positions within the mask, and normalises the sum; to that it adds
    /// what the layer between attentions makes of it, and normalises the sum. The mask is applied
    /// before the first layer and after the last.
    pub proof fn lemma_value(self, x: Tensor, x_mask: Tensor, m: Reading) -> (r: (
        Tensor,
        Seq<Tensor>,
        Seq<Tensor>,
        Seq<Tensor>,
    ))
        requires
            self.takes(x, x_mask),
        ensures
            ({
                let (pairs, xs, sums, again) = r;
                let n = self.attn_layers.len();
                let y = self.forward_expr(x, x_mask);
                &&& pairs.shape == Shape::D4(x_mask.at(0), 1, x_mask.at(2), x_mask.at(2))
                &&& forall|b: int, h: int, i: int, j: int|
                    0 <= b < x.at(0) && 0 <= i < x.at(2) && 0 <= j < x.at(2) ==> #[trigger]
                    crate::signals::at4(pairs, b, h, i, j, m) == crate::signals::at(
                        x_mask,
                        b,
                        0,
                        i,
                        m,
                    ) * crate::signals::at(x_mask, b, 0, j, m)
                &&& xs.len() == n + 1 && sums.len() == n && again.len() == n
                &&& forall|i: int| 0 <= i <= n ==> (#[trigger] xs[i]).shape == x.shape
                &&& forall|i: int| 0 <= i < n ==> (#[trigger] sums[i]).shape == x.shape
                &&& forall|i: int| 0 <= i < n ==> (#[trigger] again[i]).shape == x.shape
                &&& forall|b: int, c: int, t: int| #[trigger]
                    crate::signals::at(xs[0], b, c, t, m) == crate::signals::at(x, b, c, t, m)
                        * crate::signals::at(x_mask, b, c, t, m)
                &&& forall|i: int, b: int, c: int, t: int|
                    0 <= i < n ==> #[trigger] crate::signals::at(sums[i], b, c, t, m)
                        == crate::signals::at(xs[i], b, c, t, m) + crate::signals::at(
                        self.attn_layers@[i].forward_expr(xs[i], xs[i], Some(pairs)),
                        b,
                        c,
                        t,
                        m,
                    )
                &&& forall|i: int, b: int, c: int, t: int|
                    0 <= i < n ==> #[trigger] crate::signals::at(again[i], b, c, t, m) == {
                        let mid = self.norm_layers_1@[i].over_channels_expr(sums[i]);
                        crate::signals::at(mid, b, c, t, m) + crate::signals::at(
                            self.ffn_layers@[i].forward_expr(mid, x_mask),
                            b,
                            c,
                            t,
                            m,
                        )
                    }
                &&& forall|i: int|
                    1 <= i <= n ==> #[trigger] xs[i]
                        == self.norm_layers_2@[i - 1].over_channels_expr(again[i - 1])
                &&& y.shape == x.shape
                &&& forall|b: int, c: int, t: int| #[trigger]
                    crate::signals::at(y, b, c, t, m) == crate::signals::at(
                        xs[n as int],
                        b,
                        c,
                        t,
                        m,
                    ) * crate::signals::at(x_mask, b, c, t, m)
            }),
    {
        let n = self.attn_layers.len() as nat;
        let start = x.times_expr(x_mask);
        let pairs = Encoder::attn_mask_expr(x_mask);
        let xs = Seq::new(n + 1, |i: int| self.after_expr(i as nat, start, x_mask));
        let sums = Seq::new(n, |i: int| self.sum_expr(i, xs[i], x_mask));
        let again = Seq::new(n, |i: int| self.again_expr(i, sums[i], x_mask));
        assert(start.shape == x.shape) by {
            reveal(Tensor::binary_expr);
        }
        assert(pairs.shape == Shape::D4(x_mask.at(0), 1, x_mask.at(2), x_mask.at(2))) by {
            reveal(Tensor::reshape_expr);
            reveal(Tensor::binary_expr);
        }
        assert forall|b: int, h: int, i: int, j: int|
            0 <= b < x.at(0) && 0 <= i < x.at(2) && 0 <= j < x.at(2) implies #[trigger]
        crate::signals::at4(pairs, b, h, i, j, m) == crate::signals::at(x_mask, b, 0, i, m)
            * crate::signals::at(x_mask, b, 0, j, m) by {
            Encoder::lemma_attn_mask(x_mask, b, h, i, j, m);
        }
        assert forall|b: int, c: int, t: int| #[trigger]
            crate::signals::at(xs[0], b, c, t, m) == crate::signals::at(x, b, c, t, m)
                * crate::signals::at(x_mask, b, c, t, m) by {
            crate::value::lemma_binary_value(x, BinaryOp::Mul, x_mask, seq![b, c, t], m);
        }
        assert forall|i: int| 0 <= i <= n implies (#[trigger] xs[i]).shape == x.shape by {
            self.lemma_after_shape(i as nat, start, x_mask);
        }
        assert forall|i: int| 0 <= i < n implies (#[trigger] sums[i]).shape == x.shape by {
            assert(xs[i].shape == x.shape);
            self.lemma_layer(i, xs[i], x_mask, 0, 0, 0, m);
        }
        assert forall|i: int| 0 <= i < n implies (#[trigger] again[i]).shape == x.shape by {
            assert(xs[i].shape == x.shape);
            self.lemma_layer(i, xs[i], x_mask, 0, 0, 0, m);
        }
        assert forall|i: int, b: int, c: int, t: int| 0 <= i < n implies #[trigger]
        crate::signals::at(sums[i], b, c, t, m) == crate::signals::at(xs[i], b, c, t, m)
            + crate::signals::at(
            self.attn_layers@[i].forward_expr(xs[i], xs[i], Some(pairs)),
            b,
            c,
            t,
            m,
        ) by {
            assert(xs[i].shape == x.shape);
            self.lemma_layer(i, xs[i], x_mask, b, c, t, m);
        }
        assert forall|i: int, b: int, c: int, t: int| 0 <= i < n implies #[trigger]
        crate::signals::at(again[i], b, c, t, m) == {
            let mid = self.norm_layers_1@[i].over_channels_expr(sums[i]);
            crate::signals::at(mid, b, c, t, m) + crate::signals::at(
                self.ffn_layers@[i].forward_expr(mid, x_mask),
                b,
                c,
                t,
                m,
            )
        } by {
            assert(xs[i].shape == x.shape);
            self.lemma_layer(i, xs[i], x_mask, b, c, t, m);
        }
        assert forall|i: int| 1 <= i <= n implies #[trigger] xs[i] == self.norm_layers_2@[i
            - 1].over_channels_expr(again[i - 1]) by {
            self.lemma_next((i - 1) as nat, start, x_mask);
        }
        let last = xs[n as int];
        assert(last.shape == x.shape);
        assert(self.forward_expr(x, x_mask).shape == x.shape) by {
            reveal(Tensor::binary_expr);
        }
        assert forall|b: int, c: int, t: int| #[trigger]
            crate::signals::at(self.forward_expr(x, x_mask), b, c, t, m) == crate::signals::at(
                last,
                b,
                c,
                t,
                m,
            ) * crate::signals::at(x_mask, b, c, t, m) by {
            crate::value::lemma_binary_value(last, BinaryOp::Mul, x_mask, seq![b, c, t], m);
        }
        (pairs, xs, sums, again)
    }
}

impl TextEncoder {
    /// The text encoder in real numbers. An identifier stands for a learned vector, times the root
    /// of the number of its channels. What the layers make of the vectors within the mask is the
    /// encoding; of the channels that the last convolution makes of it under the mask, the first
    /// are the means and the others the logarithms of the deviations.
    pub proof fn lemma_value(self, x: Tensor, x_lengths: Tensor, m: Reading) -> (r: (
        Tensor,
        Tensor,
    ))
        requires
            self.wf(),
            x.shape.rank() == 2,
            self.encoder.takes_length(x.at(1)),
            x_lengths.shape.rank() == 1,
            x_lengths.at(0) == x.at(0) || x_lengths.at(0) == 1,
        ensures
            ({
                let (entry, stats) = r;
                let out = self.out_channels;
                let (h, means, spreads, x_mask) = self.forward_expr(x, x_lengths);
                &&& entry.shape == Shape::D3(x.at(0), self.hidden_channels, x.at(1))
                &&& forall|b: int, c: int, t: int|
                    0 <= b < x.at(0) && 0 <= c < self.hidden_channels && 0 <= t < x.at(1)
                        && 0real <= crate::value::value(x, seq![b, t], m)
                        < self.emb.weight.shape.at(0) as int as real ==> #[trigger]
                    crate::signals::at(entry, b, c, t, m) == (m.param)(
                        self.emb.weight.path,
                        seq![crate::value::value(x, seq![b, t], m).floor(), c],
                    ) * (m.sqrt)(self.hidden_channels as int as real) * crate::value::truth(
                        (t as real) < crate::value::value(x_lengths, seq![b], m),
                    )
                &&& h == self.encoder.forward_expr(entry, x_mask)
                &&& stats.shape == Shape::D3(x.at(0), (2 * out) as usize, x.at(1))
                &&& forall|b: int, c: int, t: int|
                    0 <= b < x.at(0) && 0 <= c < 2 * out && 0 <= t < x.at(1) ==> #[trigger]
                    crate::signals::at(stats, b, c, t, m) == crate::signals::at(
                        self.proj.forward_expr(h),
                        b,
                        c,
                        t,
                        m,
                    ) * crate::value::truth(
                        (t as real) < crate::value::value(x_lengths, seq![b], m),
                    )
                &&& means.shape == Shape::D3(x.at(0), out, x.at(1))
                &&& forall|b: int, c: int, t: int|
                    0 <= b < x.at(0) && 0 <= c < out && 0 <= t < x.at(1) ==> #[trigger]
                    crate::signals::at(means, b, c, t, m) == crate::signals::at(
                        stats,
                        b,
                        c,
                        t,
                        m,
                    )
                &&& spreads.shape == means.shape
                &&& forall|b: int, c: int, t: int|
                    0 <= b < x.at(0) && 0 <= c < out && 0 <= t < x.at(1) ==> #[trigger]
                    crate::signals::at(spreads, b, c, t, m) == crate::signals::at(
                        stats,
                        b,
                        out + c,
                        t,
                        m,
                    )
            }),
    {
        let out = self.out_channels;
        let hidden = self.hidden_channels;
        let scale = Scalar::Count(hidden).sqrt_expr();
        let vectors = crate::lengths::embedded_expr(self.emb, x, scale);
        let x_mask = crate::encoder::signal_mask_expr(x_lengths, vectors.at(2));
        let entry = vectors.times_expr(x_mask);
        let shape = Shape::D3(x.at(0), hidden, x.at(1));
        crate::lengths::lemma_embedded(self.emb, x, scale, seq![0, 0, 0], m);
        assert(self.emb.weight.value_expr().shape == self.emb.weight.shape) by {
            reveal(Tensor::leaf_expr);
        }
        assert(x_mask.shape == Shape::D3(x_lengths.at(0), 1, x.at(1))) by {
            reveal(Tensor::leaf_expr);
            reveal(Tensor::reshape_expr);
            reveal(Tensor::binary_expr);
            reveal(Tensor::unary_expr);
        }
        assert(entry.shape == shape) by {
            reveal(Tensor::binary_expr);
        }
        let h = self.encoder.forward_expr(entry, x_mask);
        let parts = self.encoder.lemma_value(entry, x_mask, m);
        let after = self.proj.forward_expr(h);
        self.proj.lemma_shape(h);
        let stats = after.times_expr(x_mask);
        let double = (out * 2) as usize;
        let means = stats.slice_expr(1, 0, out);
        let spreads = stats.slice_expr(1, out, double);
        assert(stats.shape == after.shape && means.shape == Shape::D3(x.at(0), out, x.at(1))
            && spreads.shape == means.shape) by {
            reveal(Tensor::binary_expr);
            reveal(Tensor::slice_expr);
        }
        assert forall|b: int, c: int, t: int|
            0 <= b < x.at(0) && 0 <= c < hidden && 0 <= t < x.at(1) && 0real
                <= crate::value::value(x, seq![b, t], m) < self.emb.weight.shape.at(
                0,
            ) as int as real implies #[trigger] crate::signals::at(entry, b, c, t, m) == (m.param)(
            self.emb.weight.path,
            seq![crate::value::value(x, seq![b, t], m).floor(), c],
        ) * (m.sqrt)(hidden as int as real) * crate::value::truth(
            (t as real) < crate::value::value(x_lengths, seq![b], m),
        ) by {
            let idx = seq![b, c, t];
            assert(crate::element::within(shape, idx));
            crate::value::lemma_binary_value(vectors, BinaryOp::Mul, x_mask, idx, m);
            crate::lengths::lemma_mask_value(x_lengths, x.at(1), x.at(0), hidden, idx, m);
            assert(seq![idx[0]] =~= seq![b]);
            crate::lengths::lemma_embedded(self.emb, x, scale, idx, m);
            crate::element::lemma_unstretched(vectors.shape, idx);
            assert(seq![idx[0], idx[2]] =~= seq![b, t]);
            let id = crate::value::value(x, seq![b, t], m).floor();
            assert(crate::element::within(self.emb.weight.shape, seq![id, c]));
            crate::signals::lemma_param_value(self.emb.weight, seq![id, c], m);
            assert(crate::value::number(scale, m) == (m.sqrt)(hidden as int as real)) by {
                reveal_with_fuel(crate::value::number, 2);
            }
        }
        assert forall|b: int, c: int, t: int|
            0 <= b < x.at(0) && 0 <= c < 2 * out && 0 <= t < x.at(1) implies #[trigger]
        crate::signals::at(stats, b, c, t, m) == crate::signals::at(after, b, c, t, m)
            * crate::value::truth((t as real) < crate::value::value(x_lengths, seq![b], m)) by {
            let idx = seq![b, c, t];
            assert(crate::element::within(stats.shape, idx));
            crate::value::lemma_binary_value(after, BinaryOp::Mul, x_mask, idx, m);
            crate::lengths::lemma_mask_value(x_lengths, x.at(1), x.at(0), double, idx, m);
            assert(seq![idx[0]] =~= seq![b]);
        }
        assert forall|b: int, c: int, t: int|
            0 <= b < x.at(0) && 0 <= c < out && 0 <= t < x.at(1) implies #[trigger]
        crate::signals::at(means, b, c, t, m) == crate::signals::at(stats, b, c, t, m) by {
            let idx = seq![b, c, t];
            assert(crate::element::within(means.shape, idx));
            crate::value::lemma_slice_value(stats, 1, 0, out, idx, m);
            assert(idx.update(1, c + 0) =~= idx);
        }
        assert forall|b: int, c: int, t: int|
            0 <= b < x.at(0) && 0 <= c < out && 0 <= t < x.at(1) implies #[trigger]
        crate::signals::at(spreads, b, c, t, m) == crate::signals::at(
            stats,
            b,
            out + c,
            t,
            m,
        ) by {
            let idx = seq![b, c, t];
            assert(crate::element::within(spreads.shape, idx));
            crate::value::lemma_slice_value(stats, 1, out, double, idx, m);
            assert(idx.update(1, c + out) =~= seq![b, out + c, t]);
        }
        (entry, stats)
    }
}

} // verus!

//! What a stack of gated convolutions makes of a signal, in real numbers, layer by layer.

use crate::shape::Shape;
use crate::tensor::{BinaryOp, Tensor, UnaryOp};
use crate::value::Reading;
use crate::wavenet::WN;
use vstd::prelude::*;

verus! {

/// What passes a gate, in real numbers: the hyperbolic tangent of the sum of the signals in a
/// channel, times the sigmoid of their sum `n` channels further on.
pub proof fn lemma_gate_value(
    x: Tensor,
    y: Tensor,
    n: usize,
    b: int,
    c: int,
    t: int,
    m: Reading,
)
    requires
        x.shape.rank() == 3,
        y.shape.rank() == 3,
        x.shape.joined(y.shape) == x.shape,
        x.at(1) == 2 * n,
        0 <= b < x.at(0),
        0 <= c < n,
        0 <= t < x.at(2),
    ensures
        crate::wavenet::fused_expr(x, y, n).shape == x.shape.resized(1, n),
        crate::signals::at(crate::wavenet::fused_expr(x, y, n), b, c, t, m) == (m.tanh)(
            crate::signals::at(x, b, c, t, m) + crate::signals::at(y, b, c, t, m),
        ) * (m.sigmoid)(
            crate::signals::at(x, b, n + c, t, m) + crate::signals::at(y, b, n + c, t, m),
        ),
{
    broadcast use crate::value::group_elementwise;

    lemma_gate_shape(x, y, n);
    let sum = x.plus_expr(y);
    assert(sum.shape == x.shape) by {
        reveal(Tensor::binary_expr);
    }
    let (low, high) = (sum.slice_expr(1, 0, n), sum.slice_expr(1, n, sum.at(1)));
    assert(low.shape == x.shape.resized(1, n) && high.shape == x.shape.resized(1, n)) by {
        reveal(Tensor::slice_expr);
    }
    let idx = seq![b, c, t];
    assert(crate::element::within(low.shape, idx));
    crate::value::lemma_slice_value(sum, 1, 0, n, idx, m);
    crate::value::lemma_slice_value(sum, 1, n, sum.at(1), idx, m);
    assert(idx.update(1, c + 0) =~= idx);
    assert(idx.update(1, c + n) =~= seq![b, n + c, t]);
    assert(low.unary_expr(UnaryOp::Tanh).shape.rank() == 3 && high.unary_expr(
        UnaryOp::Sigmoid,
    ).shape.rank() == 3) by {
        reveal(Tensor::unary_expr);
    }
}

proof fn lemma_gate_shape(x: Tensor, y: Tensor, n: usize)
    requires
        x.shape.rank() == 3,
        y.shape.rank() == 3,
        x.shape.joined(y.shape) == x.shape,
        x.at(1) == 2 * n,
    ensures
        crate::wavenet::fused_expr(x, y, n).shape == x.shape.resized(1, n),
{
    reveal(Tensor::binary_expr);
    reveal(Tensor::slice_expr);
    reveal(Tensor::unary_expr);
}

impl WN {
    /// What the condition adds in a channel of layer `i`: the channels for the layers follow one
    /// another.
    pub open spec fn told(
        self,
        g: Option<Tensor>,
        i: int,
        b: int,
        c: int,
        t: int,
        m: Reading,
    ) -> real {
        match (g, self.cond_layer) {
            (Some(g), Some(cond)) => crate::signals::at(
                cond.forward_expr(g),
                b,
                i * (2 * self.hidden_channels) + c,
                t,
                m,
            ),
            _ => 0real,
        }
    }

    /// Whether a signal can be sent through under a mask and a condition.
    pub open spec fn takes(self, x: Tensor, x_mask: Tensor, g: Option<Tensor>) -> bool {
        &&& self.wf()
        &&& x.shape.rank() == 3
        &&& x.at(1) == self.hidden_channels
        &&& self.takes_length(x.at(2))
        &&& x_mask.shape.rank() == 3
        &&& x.shape.joined(x_mask.shape) == x.shape
        &&& self.cond_fits(g, x.shape)
    }

    /// What layer `i` adds to its signal before it is squashed.
    spec fn slice_expr(self, i: int, x: Tensor, g: Option<Tensor>) -> Tensor {
        let offset = i * (2 * self.hidden_channels);
        match self.condition_expr(g) {
            Some(g) => g.slice_expr(
                1,
                offset as usize,
                (offset + 2 * self.hidden_channels) as usize,
            ),
            None => Tensor::zeros_expr(self.in_layers@[i].forward_expr(x).shape),
        }
    }

    /// What layer `i` lets through.
    spec fn gate_expr(self, i: int, x: Tensor, g: Option<Tensor>) -> Tensor {
        self.drop.forward_expr(
            crate::wavenet::fused_expr(
                self.in_layers@[i].forward_expr(x),
                self.slice_expr(i, x, g),
                self.hidden_channels,
            ),
        )
    }

    proof fn lemma_layer_shape(self, i: int, x: Tensor, x_mask: Tensor, g: Option<Tensor>)
        requires
            self.takes(x, x_mask, g),
            0 <= i < self.n_layers,
        ensures
            ({
                let h = self.hidden_channels;
                let ends = self.res_skip_expr(i, x, self.condition_expr(g));
                &&& 2 * h <= usize::MAX
                &&& self.in_layers@[i].forward_expr(x).shape == Shape::D3(
                    x.at(0),
                    (2 * h) as usize,
                    x.at(2),
                )
                &&& self.in_layers@[i].forward_expr(x).shape.joined(
                    self.slice_expr(i, x, g).shape,
                ) == self.in_layers@[i].forward_expr(x).shape
                &&& self.slice_expr(i, x, g).shape.rank() == 3
                &&& self.gate_expr(i, x, g).shape == x.shape
                &&& ends == self.res_skip_layers@[i].forward_expr(self.gate_expr(i, x, g))
                &&& ends.shape == Shape::D3(
                    x.at(0),
                    if i < self.n_layers - 1 {
                        (2 * h) as usize
                    } else {
                        h
                    },
                    x.at(2),
                )
            }),
    {
        let h = self.hidden_channels;
        assert(self.layer_fits(i));
        assert(x.at(2) + self.in_layers@[i].padding + self.in_layers@[i].padding <= usize::MAX);
        self.in_layers@[i].lemma_shape(x);
        let x_in = self.in_layers@[i].forward_expr(x);
        let offset = i * (2 * h);
        if let (Some(g), Some(cond)) = (g, self.cond_layer) {
            cond.lemma_shape(g);
            assert(0 <= offset && offset + 2 * h <= 2 * h * self.n_layers) by (nonlinear_arith)
                requires
                    0 <= i < self.n_layers,
                    offset == i * (2 * h),
            ;
            reveal(Tensor::slice_expr);
        } else {
            reveal(Tensor::leaf_expr);
        }
        let g_l = self.slice_expr(i, x, g);
        assert(g_l.shape.rank() == 3 && x_in.shape.joined(g_l.shape) == x_in.shape);
        lemma_gate_shape(x_in, g_l, h);
        let gate = self.gate_expr(i, x, g);
        assert(gate.shape == x.shape) by {
            reveal(Tensor::dropout_expr);
        }
        self.res_skip_layers@[i].lemma_shape(gate);
    }

    proof fn lemma_shape_after(self, n: nat, x: Tensor, x_mask: Tensor, g: Option<Tensor>)
        requires
            self.takes(x, x_mask, g),
            n <= self.n_layers,
        ensures
            ({
                let (y, output) = self.after_expr(n, x, x_mask, self.condition_expr(g));
                y.shape == x.shape && output.shape == x.shape
            }),
        decreases n,
    {
        if n == 0 {
            reveal(Tensor::leaf_expr);
        } else {
            self.lemma_shape_after((n - 1) as nat, x, x_mask, g);
            let y = self.after_expr((n - 1) as nat, x, x_mask, self.condition_expr(g)).0;
            self.lemma_layer_shape(n - 1, y, x_mask, g);
            reveal(Tensor::binary_expr);
            reveal(Tensor::slice_expr);
        }
    }

    /// The sum after some of the layers.
    proof fn lemma_sum_after(
        self,
        n: nat,
        x: Tensor,
        x_mask: Tensor,
        g: Option<Tensor>,
        ends: Seq<Tensor>,
        b: int,
        c: int,
        t: int,
        m: Reading,
    )
        requires
            self.takes(x, x_mask, g),
            n <= self.n_layers,
            crate::element::within(x.shape, seq![b, c, t]),
            ends.len() == self.n_layers,
            forall|i: int|
                0 <= i < self.n_layers ==> #[trigger] ends[i] == self.res_skip_expr(
                    i,
                    self.after_expr(i as nat, x, x_mask, self.condition_expr(g)).0,
                    self.condition_expr(g),
                ),
        ensures
            crate::signals::at(
                self.after_expr(n, x, x_mask, self.condition_expr(g)).1,
                b,
                c,
                t,
                m,
            ) == if n < self.n_layers {
                crate::value::sum(
                    n,
                    |i: int| crate::signals::at(ends[i], b, self.hidden_channels + c, t, m),
                )
            } else if n == 0 {
                0real
            } else {
                crate::value::sum(
                    (n - 1) as nat,
                    |i: int| crate::signals::at(ends[i], b, self.hidden_channels + c, t, m),
                ) + crate::signals::at(ends[n - 1], b, c, t, m)
            },
        decreases n,
    {
        broadcast use crate::value::group_elementwise;

        let cond = self.condition_expr(g);
        let idx = seq![b, c, t];
        assert(idx[0] == b && idx[1] == c && idx[2] == t);
        let h = self.hidden_channels;
        let skips = |i: int| crate::signals::at(ends[i], b, h + c, t, m);
        if n > 0 {
            let k = (n - 1) as nat;
            self.lemma_sum_after(k, x, x_mask, g, ends, b, c, t, m);
            self.lemma_shape_after(k, x, x_mask, g);
            let (y, output) = self.after_expr(k, x, x_mask, cond);
            self.lemma_layer_shape(k as int, y, x_mask, g);
            let acts = self.res_skip_expr(k as int, y, cond);
            assert(ends[k as int] == acts);
            if n < self.n_layers {
                let high = acts.slice_expr(1, h, acts.at(1));
                assert(high.shape == x.shape) by {
                    reveal(Tensor::slice_expr);
                }
                crate::value::lemma_slice_value(acts, 1, h, acts.at(1), idx, m);
                assert(idx.update(1, c + h) =~= seq![b, h + c, t]);
                assert(skips(k as int) == crate::signals::at(acts, b, h + c, t, m));
            }
        }
    }

    /// A stack of gated convolutions in real numbers. Each layer lets pass its gate the signal
    /// that its first convolution makes, with the condition added, and ends with the second
    /// convolution of that. Of what a layer that is not the last ends with, the first channels are
    /// added to the signal, under the mask, for the next layer; the others are added up, together
    /// with all that the last layer ends with, for the result under the mask.
    pub proof fn lemma_value(
        self,
        x: Tensor,
        x_mask: Tensor,
        g: Option<Tensor>,
        m: Reading,
    ) -> (r: (Seq<Tensor>, Seq<Tensor>, Seq<Tensor>))
        requires
            self.takes(x, x_mask, g),
            self.n_layers >= 1,
        ensures
            ({
                let (xs, gates, ends) = r;
                let n = self.n_layers;
                let h = self.hidden_channels;
                &&& xs.len() == n && gates.len() == n && ends.len() == n
                &&& xs[0] == x
                &&& forall|i: int| 0 <= i < n ==> (#[trigger] xs[i]).shape == x.shape
                &&& forall|i: int| 0 <= i < n ==> (#[trigger] gates[i]).shape == x.shape
                &&& forall|i: int, b: int, c: int, t: int|
                    0 <= i < n && 0 <= b < x.at(0) && 0 <= c < h && 0 <= t < x.at(2)
                        ==> #[trigger] crate::signals::at(gates[i], b, c, t, m) == {
                        let begun = self.in_layers@[i].forward_expr(xs[i]);
                        (m.tanh)(
                            crate::signals::at(begun, b, c, t, m) + self.told(g, i, b, c, t, m),
                        ) * (m.sigmoid)(
                            crate::signals::at(begun, b, h + c, t, m) + self.told(
                                g,
                                i,
                                b,
                                h + c,
                                t,
                                m,
                            ),
                        )
                    }
                &&& forall|i: int|
                    0 <= i < n ==> #[trigger] ends[i] == self.res_skip_layers@[i].forward_expr(
                        gates[i],
                    )
                &&& forall|i: int, b: int, c: int, t: int|
                    1 <= i < n && 0 <= b < x.at(0) && 0 <= c < h && 0 <= t < x.at(2)
                        ==> #[trigger] crate::signals::at(xs[i], b, c, t, m) == (
                    crate::signals::at(xs[i - 1], b, c, t, m) + crate::signals::at(
                        ends[i - 1],
                        b,
                        c,
                        t,
                        m,
                    )) * crate::signals::at(x_mask, b, c, t, m)
                &&& self.forward_expr(x, x_mask, g).shape == x.shape
                &&& forall|b: int, c: int, t: int|
                    0 <= b < x.at(0) && 0 <= c < h && 0 <= t < x.at(2) ==> #[trigger]
                    crate::signals::at(self.forward_expr(x, x_mask, g), b, c, t, m) == (
                    crate::value::sum(
                        (n - 1) as nat,
                        |i: int| crate::signals::at(ends[i], b, h + c, t, m),
                    ) + crate::signals::at(ends[n - 1], b, c, t, m)) * crate::signals::at(
                        x_mask,
                        b,
                        c,
                        t,
                        m,
                    )
            }),
    {
        let n = self.n_layers as nat;
        let h = self.hidden_channels;
        let cond = self.condition_expr(g);
        let xs = Seq::new(n, |i: int| self.after_expr(i as nat, x, x_mask, cond).0);
        let gates = Seq::new(n, |i: int| self.gate_expr(i, xs[i], g));
        let ends = Seq::new(n, |i: int| self.res_skip_expr(i, xs[i], cond));
        assert forall|i: int| 0 <= i < n implies (#[trigger] xs[i]).shape == x.shape by {
            self.lemma_shape_after(i as nat, x, x_mask, g);
        }
        assert forall|i: int| 0 <= i < n implies (#[trigger] gates[i]).shape == x.shape && ends[i]
            == self.res_skip_layers@[i].forward_expr(gates[i]) by {
            assert(xs[i].shape == x.shape);
            self.lemma_layer_shape(i, xs[i], x_mask, g);
        }
        assert forall|i: int| 0 <= i < n implies #[trigger] ends[i]
            == self.res_skip_layers@[i].forward_expr(gates[i]) by {
            assert(gates[i].shape == x.shape);
        }
        assert forall|i: int, b: int, c: int, t: int|
            0 <= i < n && 0 <= b < x.at(0) && 0 <= c < h && 0 <= t < x.at(2) implies #[trigger]
        crate::signals::at(gates[i], b, c, t, m) == {
            let begun = self.in_layers@[i].forward_expr(xs[i]);
            (m.tanh)(crate::signals::at(begun, b, c, t, m) + self.told(g, i, b, c, t, m)) * (
            m.sigmoid)(
                crate::signals::at(begun, b, h + c, t, m) + self.told(g, i, b, h + c, t, m),
            )
        } by {
            assert(xs[i].shape == x.shape);
            self.lemma_gate(i, xs[i], x_mask, g, b, c, t, m);
        }
        assert forall|i: int, b: int, c: int, t: int|
            1 <= i < n && 0 <= b < x.at(0) && 0 <= c < h && 0 <= t < x.at(2) implies #[trigger]
        crate::signals::at(xs[i], b, c, t, m) == (crate::signals::at(xs[i - 1], b, c, t, m)
            + crate::signals::at(ends[i - 1], b, c, t, m)) * crate::signals::at(
            x_mask,
            b,
            c,
            t,
            m,
        ) by {
            broadcast use crate::value::group_elementwise;

            let k = i - 1;
            let idx = seq![b, c, t];
            assert(xs[k].shape == x.shape);
            self.lemma_layer_shape(k, xs[k], x_mask, g);
            let low = ends[k].slice_expr(1, 0, h);
            assert(low.shape == x.shape) by {
                reveal(Tensor::slice_expr);
            }
            assert(crate::element::within(x.shape, idx));
            crate::value::lemma_slice_value(ends[k], 1, 0, h, idx, m);
            assert(idx.update(1, c + 0) =~= idx);
            assert(xs[i] == xs[k].plus_expr(low).times_expr(x_mask));
            assert(xs[k].plus_expr(low).shape == x.shape) by {
                reveal(Tensor::binary_expr);
            }
        }
        self.lemma_shape_after(n, x, x_mask, g);
        assert(self.forward_expr(x, x_mask, g).shape == x.shape) by {
            reveal(Tensor::binary_expr);
        }
        assert forall|b: int, c: int, t: int|
            0 <= b < x.at(0) && 0 <= c < h && 0 <= t < x.at(2) implies #[trigger]
        crate::signals::at(self.forward_expr(x, x_mask, g), b, c, t, m) == (crate::value::sum(
            (n - 1) as nat,
            |i: int| crate::signals::at(ends[i], b, h + c, t, m),
        ) + crate::signals::at(ends[n - 1], b, c, t, m)) * crate::signals::at(
            x_mask,
            b,
            c,
            t,
            m,
        ) by {
            assert(crate::element::within(x.shape, seq![b, c, t]));
            self.lemma_sum_after(n, x, x_mask, g, ends, b, c, t, m);
            crate::value::lemma_binary_value(
                self.after_expr(n, x, x_mask, cond).1,
                BinaryOp::Mul,
                x_mask,
                seq![b, c, t],
                m,
            );
        }
        (xs, gates, ends)
    }

    /// What a layer lets through.
    proof fn lemma_gate(
        self,
        i: int,
        x: Tensor,
        x_mask: Tensor,
        g: Option<Tensor>,
        b: int,
        c: int,
        t: int,
        m: Reading,
    )
        requires
            self.takes(x, x_mask, g),
            0 <= i < self.n_layers,
            0 <= b < x.at(0),
            0 <= c < self.hidden_channels,
            0 <= t < x.at(2),
        ensures
            ({
                let h = self.hidden_channels;
                let begun = self.in_layers@[i].forward_expr(x);
                crate::signals::at(self.gate_expr(i, x, g), b, c, t, m) == (m.tanh)(
                    crate::signals::at(begun, b, c, t, m) + self.told(g, i, b, c, t, m),
                ) * (m.sigmoid)(
                    crate::signals::at(begun, b, h + c, t, m) + self.told(g, i, b, h + c, t, m),
                )
            }),
    {
        let h = self.hidden_channels;
        let begun = self.in_layers@[i].forward_expr(x);
        let g_l = self.slice_expr(i, x, g);
        self.lemma_layer_shape(i, x, x_mask, g);
        lemma_gate_value(begun, g_l, h, b, c, t, m);
        self.drop.lemma_value(
            crate::wavenet::fused_expr(begun, g_l, h),
            seq![b, c, t],
            m,
        );
        self.lemma_told(i, x, x_mask, g, b, c, t, m);
        self.lemma_told(i, x, x_mask, g, b, h + c, t, m);
    }

    proof fn lemma_told(
        self,
        i: int,
        x: Tensor,
        x_mask: Tensor,
        g: Option<Tensor>,
        b: int,
        c: int,
        t: int,
        m: Reading,
    )
        requires
            self.takes(x, x_mask, g),
            0 <= i < self.n_layers,
            0 <= b < x.at(0),
            0 <= c < 2 * self.hidden_channels,
            0 <= t < x.at(2),
        ensures
            crate::signals::at(self.slice_expr(i, x, g), b, c, t, m) == self.told(
                g,
                i,
                b,
                c,
                t,
                m,
            ),
    {
        let h = self.hidden_channels;
        let offset = i * (2 * h);
        let g_l = self.slice_expr(i, x, g);
        if let (Some(g), Some(cond)) = (g, self.cond_layer) {
            cond.lemma_shape(g);
            assert(0 <= offset && offset + 2 * h <= 2 * h * self.n_layers) by (nonlinear_arith)
                requires
                    0 <= i < self.n_layers,
                    offset == i * (2 * h),
            ;
            let all = cond.forward_expr(g);
            assert(g_l.shape == all.shape.resized(1, (2 * h) as usize)) by {
                reveal(Tensor::slice_expr);
            }
            let idx = seq![b, c, t];
            let there = crate::element::unstretched(g_l.shape, idx);
            let from = seq![b, offset + c, t];
            assert(there.len() == 3);
            assert(crate::element::unstretched(g_l.shape, there) =~= there);
            crate::value::lemma_stretched(g_l, idx, there, m);
            assert(there[1] == c || 2 * h == 1);
            assert(h >= 1);
            assert(crate::element::within(g_l.shape, there));
            crate::value::lemma_slice_value(
                all,
                1,
                offset as usize,
                (offset + 2 * h) as usize,
                there,
                m,
            );
            let moved = there.update(1, there[1] + offset);
            assert(crate::element::unstretched(all.shape, moved) =~= crate::element::unstretched(
                all.shape,
                from,
            ));
            crate::value::lemma_stretched(all, moved, from, m);
        } else {
            crate::value::lemma_leaf_value(
                crate::tensor::Kind::Float,
                self.in_layers@[i].forward_expr(x).shape,
                crate::tensor::Op::Zeros,
                seq![b, c, t],
                m,
            );
        }
    }
}

} // verus!

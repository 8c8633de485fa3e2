//! What coupling layers and their blocks make of a signal, in real numbers.

use crate::flow::{ResidualCouplingBlock, ResidualCouplingBlockLayers, ResidualCouplingLayer};
use crate::shape::Shape;
use crate::tensor::{BinaryOp, Tensor};
use crate::value::Reading;
use vstd::prelude::*;

verus! {

impl ResidualCouplingLayer {
    /// A coupling layer in real numbers. The first half of the channels stays as it is and decides
    /// on the second, through the first convolution, the gated stack and the last convolution,
    /// under the mask: by how much it is shifted and, unless only shifts are learned, by the
    /// exponential of what it is scaled. In reverse it is shifted back and scaled back.
    pub proof fn lemma_value(
        self,
        x: Tensor,
        x_mask: Tensor,
        g: Option<Tensor>,
        reverse: bool,
        m: Reading,
    ) -> (r: (Tensor, Tensor, Tensor))
        requires
            self.wf(),
            x.shape.rank() == 3,
            x.at(1) == self.channels(),
            x_mask.shape.rank() == 3,
            x_mask.at(0) == 1 || x_mask.at(0) == x.at(0),
            x_mask.at(1) == 1,
            x_mask.at(2) == 1 || x_mask.at(2) == x.at(2),
            x.at(2) >= 1,
        ensures
            ({
                let (first, entry, stats) = r;
                let half = self.half_channels;
                let y = self.forward_expr(x, x_mask, g, reverse).0;
                &&& first.shape == Shape::D3(x.at(0), half, x.at(2))
                &&& forall|b: int, c: int, t: int|
                    0 <= b < x.at(0) && 0 <= c < half && 0 <= t < x.at(2) ==> #[trigger]
                    crate::signals::at(first, b, c, t, m) == crate::signals::at(x, b, c, t, m)
                &&& entry.shape == Shape::D3(x.at(0), self.enc.hidden_channels, x.at(2))
                &&& forall|b: int, c: int, t: int| #[trigger]
                    crate::signals::at(entry, b, c, t, m) == crate::signals::at(
                        self.pre.forward_expr(first),
                        b,
                        c,
                        t,
                        m,
                    ) * crate::signals::at(x_mask, b, c, t, m)
                &&& forall|b: int, c: int, t: int| #[trigger]
                    crate::signals::at(stats, b, c, t, m) == crate::signals::at(
                        self.post.forward_expr(self.enc.forward_expr(entry, x_mask, g)),
                        b,
                        c,
                        t,
                        m,
                    ) * crate::signals::at(x_mask, b, c, t, m)
                &&& y.shape == x.shape
                &&& forall|b: int, c: int, t: int|
                    0 <= b < x.at(0) && 0 <= c < x.at(1) && 0 <= t < x.at(2) ==> #[trigger]
                    crate::signals::at(y, b, c, t, m) == {
                        let v = crate::signals::at(x, b, c, t, m);
                        let shift = crate::signals::at(stats, b, c - half, t, m);
                        let scale = if self.mean_only {
                            0real
                        } else {
                            crate::signals::at(stats, b, c, t, m)
                        };
                        let k = crate::signals::at(x_mask, b, 0, t, m);
                        if c < half {
                            v
                        } else if reverse {
                            (v - shift) * (m.exp)(-scale) * k
                        } else {
                            shift + v * (m.exp)(scale) * k
                        }
                    }
            }),
    {
        let half = self.half_channels;
        let first = x.slice_expr(1, 0, half);
        let before = self.pre.forward_expr(first);
        let entry = before.times_expr(x_mask);
        let after = self.post.forward_expr(self.enc.forward_expr(entry, x_mask, g));
        let stats = after.times_expr(x_mask);
        let y = self.forward_expr(x, x_mask, g, reverse).0;
        assert(first.shape == Shape::D3(x.at(0), half, x.at(2))) by {
            reveal(Tensor::slice_expr);
        }
        self.pre.lemma_shape(first);
        assert(entry.shape == Shape::D3(x.at(0), self.enc.hidden_channels, x.at(2))) by {
            reveal(Tensor::binary_expr);
        }
        assert(after.shape.rank() == 3 && after.at(1) == self.post.channels_out()
            && stats.shape.rank() == 3 && stats.at(1) == self.post.channels_out()) by {
            reveal(Tensor::leaf_expr);
            reveal(Tensor::conv1d_expr);
            reveal(Tensor::binary_expr);
        }
        assert forall|b: int, c: int, t: int|
            0 <= b < x.at(0) && 0 <= c < half && 0 <= t < x.at(2) implies #[trigger]
        crate::signals::at(first, b, c, t, m) == crate::signals::at(x, b, c, t, m) by {
            let idx = seq![b, c, t];
            assert(crate::element::within(first.shape, idx));
            crate::value::lemma_slice_value(x, 1, 0, half, idx, m);
            assert(idx.update(1, c + 0) =~= idx);
        }
        assert forall|b: int, c: int, t: int| #[trigger]
            crate::signals::at(entry, b, c, t, m) == crate::signals::at(before, b, c, t, m)
                * crate::signals::at(x_mask, b, c, t, m) by {
            crate::value::lemma_binary_value(before, BinaryOp::Mul, x_mask, seq![b, c, t], m);
        }
        assert forall|b: int, c: int, t: int| #[trigger]
            crate::signals::at(stats, b, c, t, m) == crate::signals::at(after, b, c, t, m)
                * crate::signals::at(x_mask, b, c, t, m) by {
            crate::value::lemma_binary_value(after, BinaryOp::Mul, x_mask, seq![b, c, t], m);
        }
        assert forall|b: int, c: int, t: int|
            0 <= b < x.at(0) && 0 <= c < x.at(1) && 0 <= t < x.at(2) implies #[trigger]
        crate::signals::at(y, b, c, t, m) == {
            let v = crate::signals::at(x, b, c, t, m);
            let shift = crate::signals::at(stats, b, c - half, t, m);
            let scale = if self.mean_only {
                0real
            } else {
                crate::signals::at(stats, b, c, t, m)
            };
            let k = crate::signals::at(x_mask, b, 0, t, m);
            if c < half {
                v
            } else if reverse {
                (v - shift) * (m.exp)(-scale) * k
            } else {
                shift + v * (m.exp)(scale) * k
            }
        } by {
            let idx = seq![b, c, t];
            assert(crate::element::within(x.shape, idx));
            self.lemma_values(x, x_mask, g, reverse, idx, m);
            crate::inverse::lemma_mask_of_channel(x_mask, idx, 0, m);
            assert(idx.update(1, 0) =~= seq![b, 0, t]);
            if c >= half {
                let lower = seq![b, c - half, t];
                assert(idx.update(1, c - half) =~= lower);
                self.lemma_stats(x, x_mask, g, stats, b, c - half, t, m);
            }
        }
        self.lemma_kept_shape(x, x_mask, g, reverse);
        (first, entry, stats)
    }

    /// The shift and the logarithm of the scale are parts of what the last convolution yields.
    proof fn lemma_stats(
        self,
        x: Tensor,
        x_mask: Tensor,
        g: Option<Tensor>,
        stats: Tensor,
        b: int,
        c: int,
        t: int,
        m: Reading,
    )
        requires
            self.wf(),
            x.shape.rank() == 3,
            x.at(1) == self.channels(),
            x.at(2) >= 1,
            x_mask.shape.rank() == 3,
            x_mask.at(0) == 1 || x_mask.at(0) == x.at(0),
            x_mask.at(1) == 1,
            x_mask.at(2) == 1 || x_mask.at(2) == x.at(2),
            stats == self.post.forward_expr(
                self.enc.forward_expr(
                    self.pre.forward_expr(x.slice_expr(1, 0, self.half_channels)).times_expr(
                        x_mask,
                    ),
                    x_mask,
                    g,
                ),
            ).times_expr(x_mask),
            stats.shape.rank() == 3,
            stats.at(1) == self.post.channels_out(),
            0 <= b < x.at(0),
            0 <= c < self.half_channels,
            0 <= t < x.at(2),
        ensures
            ({
                let half = self.half_channels;
                let (shifts, logs) = self.stats_expr(x.slice_expr(1, 0, half), x_mask, g);
                &&& crate::value::value(shifts, seq![b, c, t], m) == crate::signals::at(
                    stats,
                    b,
                    c,
                    t,
                    m,
                )
                &&& crate::value::value(logs, seq![b, c, t], m) == if self.mean_only {
                    0real
                } else {
                    crate::signals::at(stats, b, c + half, t, m)
                }
            }),
    {
        let half = self.half_channels;
        let (shifts, logs) = self.stats_expr(x.slice_expr(1, 0, half), x_mask, g);
        let idx = seq![b, c, t];
        if self.mean_only {
            crate::value::lemma_leaf_value(
                crate::tensor::Kind::Float,
                stats.shape,
                crate::tensor::Op::Zeros,
                idx,
                m,
            );
        } else {
            let all = self.channels() as usize;
            assert(shifts.shape == stats.shape.resized(1, half) && logs.shape
                == stats.shape.resized(1, half)) by {
                reveal(Tensor::slice_expr);
            }
            let there = crate::element::unstretched(shifts.shape, idx);
            assert(there.len() == 3);
            assert(crate::element::unstretched(shifts.shape, there) =~= there);
            crate::value::lemma_stretched(shifts, idx, there, m);
            crate::value::lemma_stretched(logs, idx, there, m);
            lemma_slice_stretched(stats, 0, half, b, c, t, m);
            lemma_slice_stretched(stats, half, all, b, c, t, m);
        }
    }

    proof fn lemma_kept_shape(self, x: Tensor, x_mask: Tensor, g: Option<Tensor>, reverse: bool)
        requires
            self.wf(),
            x.shape.rank() == 3,
            x.at(1) == self.channels(),
            x_mask.shape.rank() == 3,
            x_mask.at(1) == 1,
        ensures
            self.forward_expr(x, x_mask, g, reverse).0.shape == x.shape,
    {
        reveal(Tensor::leaf_expr);
        reveal(Tensor::conv1d_expr);
        reveal(Tensor::unary_expr);
        reveal(Tensor::binary_expr);
        reveal(Tensor::cat_expr);
        reveal(Tensor::slice_expr);
    }
}

/// A range of channels, of a signal that may be stretched in its rows and positions.
proof fn lemma_slice_stretched(
    x: Tensor,
    start: usize,
    end: usize,
    b: int,
    c: int,
    t: int,
    m: Reading,
)
    requires
        x.shape.rank() == 3,
        start <= end <= x.at(1),
        0 <= c < end - start,
    ensures
        crate::signals::at(x.slice_expr(1, start, end), b, c, t, m) == crate::signals::at(
            x,
            b,
            c + start,
            t,
            m,
        ),
{
    reveal(Tensor::slice_expr);
    let y = x.slice_expr(1, start, end);
    let idx = seq![b, c, t];
    let there = crate::element::unstretched(y.shape, idx);
    let moved = there.update(1, there[1] + start);
    assert(there[1] == c);
    assert(crate::element::unstretched(x.shape, moved) =~= crate::element::unstretched(
        x.shape,
        seq![b, c + start, t],
    ));
    crate::value::lemma_stretched(x, moved, seq![b, c + start, t], m);
}

impl ResidualCouplingBlock {
    /// A block of coupling layers in real numbers: the steps one after the other, or in reverse
    /// from the last to the first, each in that direction. A flip puts the channels the other way
    /// round.
    pub proof fn lemma_value(
        self,
        x: Tensor,
        x_mask: Tensor,
        g: Option<Tensor>,
        reverse: bool,
        m: Reading,
    ) -> (xs: Seq<Tensor>)
        requires
            self.wf(x.at(1)),
            x.shape.rank() == 3,
            x_mask.shape.rank() == 3,
            x_mask.at(1) == 1,
        ensures
            ({
                let n = self.flows.len();
                &&& xs.len() == n + 1
                &&& xs[0] == x
                &&& forall|i: int| 0 <= i <= n ==> (#[trigger] xs[i]).shape == x.shape
                &&& forall|i: int, b: int, c: int, t: int|
                    1 <= i <= n && 0 <= b < x.at(0) && 0 <= c < x.at(1) && 0 <= t < x.at(2)
                        ==> #[trigger] crate::signals::at(xs[i], b, c, t, m)
                        == match self.flows@[if reverse {
                        n - i
                    } else {
                        i - 1
                    }] {
                        ResidualCouplingBlockLayers::ResidualCouplingLayer(layer) => {
                            crate::signals::at(
                                layer.forward_expr(xs[i - 1], x_mask, g, reverse).0,
                                b,
                                c,
                                t,
                                m,
                            )
                        },
                        ResidualCouplingBlockLayers::Flip(_) => crate::signals::at(
                            xs[i - 1],
                            b,
                            x.at(1) - 1 - c,
                            t,
                            m,
                        ),
                    }
                &&& self.forward_expr(x, x_mask, g, reverse) == xs[n as int]
            }),
    {
        let n = self.flows.len() as nat;
        let xs = Seq::new(n + 1, |i: int| self.after_expr(i as nat, x, x_mask, g, reverse));
        assert forall|i: int| 0 <= i <= n implies (#[trigger] xs[i]).shape == x.shape by {
            self.lemma_shape(i as nat, x, x_mask, g, reverse);
        }
        assert forall|i: int, b: int, c: int, t: int|
            1 <= i <= n && 0 <= b < x.at(0) && 0 <= c < x.at(1) && 0 <= t < x.at(2) implies #[trigger]
        crate::signals::at(xs[i], b, c, t, m) == match self.flows@[if reverse {
            n - i
        } else {
            i - 1
        }] {
            ResidualCouplingBlockLayers::ResidualCouplingLayer(layer) => crate::signals::at(
                layer.forward_expr(xs[i - 1], x_mask, g, reverse).0,
                b,
                c,
                t,
                m,
            ),
            ResidualCouplingBlockLayers::Flip(_) => crate::signals::at(
                xs[i - 1],
                b,
                x.at(1) - 1 - c,
                t,
                m,
            ),
        } by {
            let step = self.step(i - 1, reverse);
            assert(xs[i - 1].shape == x.shape);
            assert(xs[i] == step.forward_expr(xs[i - 1], x_mask, g, reverse).0);
            if step is Flip {
                let idx = seq![b, c, t];
                assert(crate::element::within(x.shape, idx));
                crate::value::lemma_flip_value(xs[i - 1], 1, idx, m);
                assert(idx.update(1, x.at(1) - 1 - c) =~= seq![b, x.at(1) - 1 - c, t]);
            }
        }
        xs
    }
}

} // verus!

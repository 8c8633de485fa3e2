//! What the flows undo: a signal that went through them comes back.

use crate::flow::{
    Log, ResidualCouplingBlock, ResidualCouplingBlockLayers, ResidualCouplingLayer, LOG_FLOOR,
};
use crate::nn::Conv1d;
use crate::shape::Shape;
use crate::tensor::{Tensor, UnaryOp};
use crate::value::Reading;
use vstd::prelude::*;

verus! {

/// Whether `x_mask` is zero or one for every position of signals of a shape.
pub open spec fn is_mask(x_mask: Tensor, shape: Shape, m: Reading) -> bool {
    &&& shape.rank() == 3
    &&& x_mask.shape.rank() == 3
    &&& x_mask.at(0) == 1 || x_mask.at(0) == shape.at(0)
    &&& x_mask.at(1) == 1
    &&& x_mask.at(2) == 1 || x_mask.at(2) == shape.at(2)
    &&& forall|idx: Seq<int>|
        crate::element::within(shape, idx) ==> {
            let k = #[trigger] crate::value::value(x_mask, idx, m);
            k == 0real || k == 1real
        }
}

/// Whether two signals have the same values wherever the mask is one.
pub open spec fn same_where(
    x: Tensor,
    y: Tensor,
    x_mask: Tensor,
    shape: Shape,
    m: Reading,
) -> bool {
    forall|idx: Seq<int>|
        crate::element::within(shape, idx) && crate::value::value(x_mask, idx, m) == 1real
            ==> #[trigger] crate::value::value(x, idx, m) == crate::value::value(y, idx, m)
}

/// The mask of a position is the same for every channel.
pub proof fn lemma_mask_of_channel(x_mask: Tensor, idx: Seq<int>, channel: int, m: Reading)
    requires
        x_mask.shape.rank() == 3,
        x_mask.at(1) == 1,
        idx.len() == 3,
    ensures
        crate::value::value(x_mask, idx.update(1, channel), m) == crate::value::value(
            x_mask,
            idx,
            m,
        ),
{
    assert(crate::element::unstretched(x_mask.shape, idx.update(1, channel))
        =~= crate::element::unstretched(x_mask.shape, idx));
    crate::value::lemma_stretched(x_mask, idx.update(1, channel), idx, m);
}

/// The channels of a group are among all channels.
pub proof fn lemma_group(channel: int, channels_out: int, groups: int, width: int, a: int)
    requires
        0 <= channel < channels_out,
        groups >= 1,
        channels_out % groups == 0,
        0 <= a < width,
    ensures
        0 <= (channel / (channels_out / groups)) * width + a < width * groups,
{
    let per = channels_out / groups;
    vstd::arithmetic::div_mod::lemma_fundamental_div_mod(channels_out, groups);
    assert(per >= 1) by (nonlinear_arith)
        requires
            channels_out == groups * per,
            channels_out > 0,
            groups >= 1,
    ;
    let group = channel / per;
    vstd::arithmetic::div_mod::lemma_fundamental_div_mod(channel, per);
    vstd::arithmetic::div_mod::lemma_mod_bound(channel, per);
    assert(0 <= group < groups) by (nonlinear_arith)
        requires
            channel == per * group + channel % per,
            0 <= channel % per < per,
            0 <= channel < groups * per,
            per >= 1,
    ;
    assert(0 <= group * width && group * width + width <= width * groups) by (nonlinear_arith)
        requires
            0 <= group < groups,
            width >= 0,
    ;
}

/// Filters of a single position, under a mask, depend on no position where the mask is zero.
pub proof fn lemma_pointwise(
    layer: Conv1d,
    channels_out: usize,
    x: Tensor,
    y: Tensor,
    x_mask: Tensor,
    m: Reading,
)
    requires
        layer.pointwise(x.at(1), channels_out),
        x.shape == y.shape,
        is_mask(x_mask, x.shape, m),
        same_where(x, y, x_mask, x.shape, m),
    ensures
        crate::alike::alike(
            layer.forward_expr(x).times_expr(x_mask),
            layer.forward_expr(y).times_expr(x_mask),
            m,
            m,
        ),
{
    broadcast use crate::value::group_elementwise;

    reveal(crate::alike::alike);
    reveal(Tensor::conv1d_expr);
    reveal(Tensor::leaf_expr);
    reveal(Tensor::binary_expr);
    let p = layer.forward_expr(x);
    let q = layer.forward_expr(y);
    assert(p.shape == q.shape && p.shape.rank() == 3);
    assert(layer.window().reach(1) == 1) by (nonlinear_arith)
        requires
            layer.window().dilation == 1,
            layer.window().reach(1) == layer.window().dilation * (1 - 1) + 1,
    ;
    vstd::arithmetic::div_mod::lemma_div_basics(x.at(2) - 1);
    assert(p.at(0) == x.at(0) && p.at(2) == x.at(2));
    assert forall|idx: Seq<int>| #[trigger]
        crate::value::value(p.times_expr(x_mask), idx, m) == crate::value::value(
            q.times_expr(x_mask),
            idx,
            m,
        ) by {
        let i = crate::element::unstretched(p.shape, idx);
        let k = crate::value::value(x_mask, idx, m);
        let n = (layer.weight.shape.at(1) * layer.weight.shape.at(2)) as nat;
        if k != 0real {
            assert forall|a: int| 0 <= a < n implies #[trigger] crate::value::summand(p, 0, a, i, m)
                == crate::value::summand(q, 0, a, i, m) by {
                if crate::element::within(p.shape, i) {
                    let width = layer.weight.shape.at(1);
                    let per = layer.weight.shape.at(0) as int / layer.groups as int;
                    let group = i[1] / per;
                    lemma_group(
                        i[1],
                        layer.weight.shape.at(0) as int,
                        layer.groups as int,
                        width as int,
                        a,
                    );
                    let from = seq![i[0], group * width + a, i[2]];
                    assert(a / 1 == a && a % 1 == 0);
                    assert(i[2] * layer.stride + 0 * layer.dilation == i[2]) by (nonlinear_arith)
                        requires
                            layer.stride == 1,
                    ;
                    assert(crate::element::within(x.shape, from));
                    assert(crate::element::unstretched(x_mask.shape, from)
                        =~= crate::element::unstretched(x_mask.shape, idx));
                    crate::value::lemma_stretched(x_mask, from, idx, m);
                    assert(crate::value::value(x, from, m) == crate::value::value(y, from, m));
                }
            }
            crate::alike::lemma_total(p, q, 0, n, i, m, m);
        }
    }
}

impl ResidualCouplingLayer {
    /// The layer keeps the shape of a signal.
    proof fn lemma_shape(self, x: Tensor, x_mask: Tensor, g: Option<Tensor>, reverse: bool)
        requires
            self.wf(),
            x.shape.rank() == 3,
            x.at(1) == self.channels(),
            x_mask.shape.rank() == 3,
            x_mask.at(1) == 1,
        ensures
            self.forward_expr(x, x_mask, g, reverse).0.shape == x.shape,
            self.stats_expr(x.slice_expr(1, 0, self.half_channels), x_mask, g).0.shape.rank() == 3,
            self.stats_expr(x.slice_expr(1, 0, self.half_channels), x_mask, g).1.shape.rank() == 3,
            x.slice_expr(1, 0, self.half_channels).shape == x.shape.resized(1, self.half_channels),
            x.slice_expr(1, self.half_channels, self.channels() as usize).shape
                == x.shape.resized(1, self.half_channels),
    {
        reveal(Tensor::leaf_expr);
        reveal(Tensor::conv1d_expr);
        reveal(Tensor::unary_expr);
        reveal(Tensor::binary_expr);
        reveal(Tensor::cat_expr);
        reveal(Tensor::slice_expr);
    }

    /// What the layer makes of a signal, value by value: the first half stays, and the second is
    /// scaled and shifted, or in reverse shifted and scaled back, under the mask.
    pub proof fn lemma_values(
        self,
        x: Tensor,
        x_mask: Tensor,
        g: Option<Tensor>,
        reverse: bool,
        idx: Seq<int>,
        m: Reading,
    )
        requires
            self.wf(),
            x.shape.rank() == 3,
            x.at(1) == self.channels(),
            x_mask.shape.rank() == 3,
            x_mask.at(1) == 1,
            crate::element::within(x.shape, idx),
        ensures
            ({
                let y = self.forward_expr(x, x_mask, g, reverse).0;
                let x0 = x.slice_expr(1, 0, self.half_channels);
                let (shifts, logs) = self.stats_expr(x0, x_mask, g);
                let at = idx.update(1, idx[1] - self.half_channels);
                let shift = crate::value::value(shifts, at, m);
                let log = crate::value::value(logs, at, m);
                let k = crate::value::value(x_mask, idx, m);
                let v = crate::value::value(x, idx, m);
                &&& y.shape == x.shape
                &&& crate::value::value(y, idx, m) == if idx[1] < self.half_channels {
                    v
                } else if !reverse {
                    shift + v * (m.exp)(log) * k
                } else {
                    (v - shift) * (m.exp)(-log) * k
                }
            }),
    {
        broadcast use crate::value::group_elementwise;

        let half = self.half_channels;
        let all = self.channels() as usize;
        let x0 = x.slice_expr(1, 0, half);
        let x1 = x.slice_expr(1, half, all);
        let (shifts, logs) = self.stats_expr(x0, x_mask, g);
        let at = idx.update(1, idx[1] - half);
        let y = self.forward_expr(x, x_mask, g, reverse).0;
        self.lemma_shape(x, x_mask, g, reverse);
        let y1 = if !reverse {
            let scaled = x1.times_expr(logs.unary_expr(UnaryOp::Exp));
            assert(scaled.shape.rank() == 3 && scaled.times_expr(x_mask).shape.rank() == 3
                && logs.unary_expr(UnaryOp::Exp).shape.rank() == 3) by {
                reveal(Tensor::binary_expr);
                reveal(Tensor::unary_expr);
            }
            shifts.plus_expr(scaled.times_expr(x_mask))
        } else {
            let back = logs.unary_expr(UnaryOp::Neg).unary_expr(UnaryOp::Exp);
            let moved = x1.minus_expr(shifts);
            assert(moved.shape.rank() == 3 && moved.times_expr(back).shape.rank() == 3
                && back.shape.rank() == 3) by {
                reveal(Tensor::binary_expr);
                reveal(Tensor::unary_expr);
            }
            moved.times_expr(back).times_expr(x_mask)
        };
        crate::value::lemma_cat_value(x0, y1, 1, idx, m);
        if idx[1] < half {
            assert(crate::element::within(x0.shape, idx));
            crate::value::lemma_slice_value(x, 1, 0, half, idx, m);
            assert(idx.update(1, idx[1] + 0) =~= idx);
        } else {
            assert(crate::element::within(x1.shape, at));
            crate::value::lemma_slice_value(x, 1, half, all, at, m);
            assert(at.update(1, at[1] + half) =~= idx);
            lemma_mask_of_channel(x_mask, idx, idx[1] - half, m);
        }
    }

    /// Where first halves agree wherever the mask is one, the shifts and scales are the same.
    proof fn lemma_same_stats(
        self,
        x: Tensor,
        y: Tensor,
        x_mask: Tensor,
        g: Option<Tensor>,
        m: Reading,
    )
        requires
            self.wf(),
            x.shape == y.shape,
            x.at(1) == self.half_channels,
            is_mask(x_mask, x.shape, m),
            same_where(x, y, x_mask, x.shape, m),
        ensures
            crate::alike::alike(
                self.stats_expr(x, x_mask, g).0,
                self.stats_expr(y, x_mask, g).0,
                m,
                m,
            ),
            crate::alike::alike(
                self.stats_expr(x, x_mask, g).1,
                self.stats_expr(y, x_mask, g).1,
                m,
                m,
            ),
    {
        broadcast use {crate::alike::group_alike, crate::readings::group_layers};

        lemma_pointwise(self.pre, self.enc.hidden_channels, x, y, x_mask, m);
        let h = self.pre.forward_expr(x).times_expr(x_mask);
        let k = self.pre.forward_expr(y).times_expr(x_mask);
        self.enc.lemma_alike(h, k, x_mask, x_mask, g, g, m, m);
        let p = self.post.forward_expr(self.enc.forward_expr(h, x_mask, g)).times_expr(x_mask);
        let q = self.post.forward_expr(self.enc.forward_expr(k, x_mask, g)).times_expr(x_mask);
        assert(crate::alike::alike(p, q, m, m));
    }

    /// The first half of what the layer yields is that of the signal.
    proof fn lemma_same_halves(
        self,
        x: Tensor,
        y: Tensor,
        x_mask: Tensor,
        g: Option<Tensor>,
        reverse: bool,
        m: Reading,
    )
        requires
            self.wf(),
            x.at(1) == self.channels(),
            is_mask(x_mask, x.shape, m),
            y.shape == x.shape,
            same_where(y, self.forward_expr(x, x_mask, g, reverse).0, x_mask, x.shape, m),
        ensures
            ({
                let x0 = x.slice_expr(1, 0, self.half_channels);
                let y0 = y.slice_expr(1, 0, self.half_channels);
                &&& crate::alike::alike(
                    self.stats_expr(x0, x_mask, g).0,
                    self.stats_expr(y0, x_mask, g).0,
                    m,
                    m,
                )
                &&& crate::alike::alike(
                    self.stats_expr(x0, x_mask, g).1,
                    self.stats_expr(y0, x_mask, g).1,
                    m,
                    m,
                )
            }),
    {
        let half = self.half_channels;
        let there = self.forward_expr(x, x_mask, g, reverse).0;
        let x0 = x.slice_expr(1, 0, half);
        let y0 = y.slice_expr(1, 0, half);
        self.lemma_shape(x, x_mask, g, reverse);
        self.lemma_shape(y, x_mask, g, false);
        assert forall|idx: Seq<int>| crate::element::within(x0.shape, idx) implies {
            let k = #[trigger] crate::value::value(x_mask, idx, m);
            k == 0real || k == 1real
        } by {
            assert(crate::element::within(x.shape, idx));
        }
        assert forall|idx: Seq<int>|
            crate::element::within(x0.shape, idx) && crate::value::value(x_mask, idx, m)
                == 1real implies #[trigger] crate::value::value(x0, idx, m)
            == crate::value::value(y0, idx, m) by {
            crate::value::lemma_slice_value(x, 1, 0, half, idx, m);
            crate::value::lemma_slice_value(y, 1, 0, half, idx, m);
            assert(idx.update(1, idx[1] + 0) =~= idx);
            assert(crate::element::within(x.shape, idx));
            self.lemma_values(x, x_mask, g, reverse, idx, m);
            assert(crate::value::value(y, idx, m) == crate::value::value(there, idx, m));
        }
        self.lemma_same_stats(x0, y0, x_mask, g, m);
    }

    /// The way back undoes the way there: of any signal the first half comes back, and the second
    /// half comes back under the mask.
    pub proof fn lemma_undone(
        self,
        x: Tensor,
        x_mask: Tensor,
        g: Option<Tensor>,
        idx: Seq<int>,
        m: Reading,
    )
        requires
            self.wf(),
            m.exponential(),
            x.at(1) == self.channels(),
            is_mask(x_mask, x.shape, m),
            crate::element::within(x.shape, idx),
        ensures
            ({
                let y = self.forward_expr(x, x_mask, g, false).0;
                let back = self.forward_expr(y, x_mask, g, true).0;
                let v = crate::value::value(x, idx, m);
                &&& back.shape == x.shape
                &&& idx[1] < self.half_channels ==> crate::value::value(y, idx, m) == v
                &&& crate::value::value(back, idx, m) == if idx[1] < self.half_channels {
                    v
                } else {
                    v * crate::value::value(x_mask, idx, m)
                }
            }),
    {
        let y = self.forward_expr(x, x_mask, g, false).0;
        self.lemma_shape(x, x_mask, g, false);
        self.lemma_shape(y, x_mask, g, true);
        self.lemma_same_halves(x, y, x_mask, g, false, m);
        self.lemma_values(x, x_mask, g, false, idx, m);
        self.lemma_values(y, x_mask, g, true, idx, m);
        if idx[1] >= self.half_channels {
            let (shift, log) = self.lemma_stats_at(x, y, x_mask, g, idx, m);
            let k = crate::value::value(x_mask, idx, m);
            let v = crate::value::value(x, idx, m);
            lemma_scaled_back(v, shift, (m.exp)(log), (m.exp)(-log), k);
        }
    }

    /// The shift and the logarithm of the scale at an index of the second half.
    proof fn lemma_stats_at(
        self,
        x: Tensor,
        y: Tensor,
        x_mask: Tensor,
        g: Option<Tensor>,
        idx: Seq<int>,
        m: Reading,
    ) -> (r: (real, real))
        requires
            crate::alike::alike(
                self.stats_expr(x.slice_expr(1, 0, self.half_channels), x_mask, g).0,
                self.stats_expr(y.slice_expr(1, 0, self.half_channels), x_mask, g).0,
                m,
                m,
            ),
            crate::alike::alike(
                self.stats_expr(x.slice_expr(1, 0, self.half_channels), x_mask, g).1,
                self.stats_expr(y.slice_expr(1, 0, self.half_channels), x_mask, g).1,
                m,
                m,
            ),
        ensures
            ({
                let at = idx.update(1, idx[1] - self.half_channels);
                let (a, b) = self.stats_expr(x.slice_expr(1, 0, self.half_channels), x_mask, g);
                let (c, d) = self.stats_expr(y.slice_expr(1, 0, self.half_channels), x_mask, g);
                &&& r.0 == crate::value::value(a, at, m) == crate::value::value(c, at, m)
                &&& r.1 == crate::value::value(b, at, m) == crate::value::value(d, at, m)
            }),
    {
        reveal(crate::alike::alike);
        let at = idx.update(1, idx[1] - self.half_channels);
        let (a, b) = self.stats_expr(x.slice_expr(1, 0, self.half_channels), x_mask, g);
        (crate::value::value(a, at, m), crate::value::value(b, at, m))
    }

    /// Sent back from what agrees with what it was sent to wherever the mask is one, a signal comes
    /// back there.
    proof fn lemma_undone_where(
        self,
        x: Tensor,
        y: Tensor,
        x_mask: Tensor,
        g: Option<Tensor>,
        reverse: bool,
        m: Reading,
    )
        requires
            self.wf(),
            m.exponential(),
            x.at(1) == self.channels(),
            is_mask(x_mask, x.shape, m),
            y.shape == x.shape,
            same_where(y, self.forward_expr(x, x_mask, g, reverse).0, x_mask, x.shape, m),
        ensures
            self.forward_expr(y, x_mask, g, !reverse).0.shape == x.shape,
            same_where(self.forward_expr(y, x_mask, g, !reverse).0, x, x_mask, x.shape, m),
    {
        let there = self.forward_expr(x, x_mask, g, reverse).0;
        let back = self.forward_expr(y, x_mask, g, !reverse).0;
        self.lemma_shape(y, x_mask, g, !reverse);
        self.lemma_same_halves(x, y, x_mask, g, reverse, m);
        assert forall|idx: Seq<int>|
            crate::element::within(x.shape, idx) && crate::value::value(x_mask, idx, m)
                == 1real implies #[trigger] crate::value::value(back, idx, m)
            == crate::value::value(x, idx, m) by {
            self.lemma_values(x, x_mask, g, reverse, idx, m);
            self.lemma_values(y, x_mask, g, !reverse, idx, m);
            assert(crate::value::value(y, idx, m) == crate::value::value(there, idx, m));
            if idx[1] >= self.half_channels {
                let (shift, log) = self.lemma_stats_at(x, y, x_mask, g, idx, m);
                let v = crate::value::value(x, idx, m);
                if reverse {
                    lemma_scaled_again(v, shift, (m.exp)(log), (m.exp)(-log));
                } else {
                    lemma_scaled_back(v, shift, (m.exp)(log), (m.exp)(-log), 1real);
                }
            }
        }
    }
}

/// Scaling and shifting is undone.
proof fn lemma_scaled_back(v: real, shift: real, scale: real, back: real, k: real)
    requires
        scale * back == 1real,
        k == 0real || k == 1real,
    ensures
        (shift + v * scale * k - shift) * back * k == v * k,
{
    assert(v * scale * k == (v * k) * scale) by (nonlinear_arith);
    assert((v * k) * scale * back * k == (v * k * k) * (scale * back)) by (nonlinear_arith);
    assert((v * k * k) * 1real == v * k) by (nonlinear_arith)
        requires
            k == 0real || k == 1real,
    ;
    assert(shift + (v * k) * scale - shift == (v * k) * scale);
}

/// Shifting and scaling back is undone.
proof fn lemma_scaled_again(v: real, shift: real, scale: real, back: real)
    requires
        scale * back == 1real,
    ensures
        shift + ((v - shift) * back * 1real) * scale * 1real == v,
{
    let moved = v - shift;
    assert(moved * back * 1real * scale * 1real == moved * (scale * back)) by (nonlinear_arith);
    assert(moved * 1real == moved);
}

impl ResidualCouplingBlockLayers {
    /// The step back undoes the step there, wherever the mask is one.
    proof fn lemma_undone_where(
        self,
        x: Tensor,
        y: Tensor,
        x_mask: Tensor,
        g: Option<Tensor>,
        reverse: bool,
        m: Reading,
    )
        requires
            self.wf(x.at(1)),
            m.exponential(),
            is_mask(x_mask, x.shape, m),
            y.shape == x.shape,
            same_where(y, self.forward_expr(x, x_mask, g, reverse).0, x_mask, x.shape, m),
        ensures
            self.forward_expr(x, x_mask, g, reverse).0.shape == x.shape,
            self.forward_expr(y, x_mask, g, !reverse).0.shape == x.shape,
            same_where(self.forward_expr(y, x_mask, g, !reverse).0, x, x_mask, x.shape, m),
    {
        match self {
            ResidualCouplingBlockLayers::ResidualCouplingLayer(layer) => {
                layer.lemma_shape(x, x_mask, g, reverse);
                layer.lemma_undone_where(x, y, x_mask, g, reverse, m);
            },
            ResidualCouplingBlockLayers::Flip(_) => {
                let there = x.flip_expr(1);
                let back = y.flip_expr(1);
                assert(there.shape == x.shape && back.shape == x.shape) by {
                    reveal(Tensor::flip_expr);
                }
                assert forall|idx: Seq<int>|
                    crate::element::within(x.shape, idx) && crate::value::value(x_mask, idx, m)
                        == 1real implies #[trigger] crate::value::value(back, idx, m)
                    == crate::value::value(x, idx, m) by {
                    let mirrored = idx.update(1, x.at(1) - 1 - idx[1]);
                    assert(crate::element::within(x.shape, mirrored));
                    crate::value::lemma_flip_value(y, 1, idx, m);
                    crate::value::lemma_flip_value(x, 1, mirrored, m);
                    assert(mirrored.update(1, x.at(1) - 1 - mirrored[1]) =~= idx);
                    lemma_mask_of_channel(x_mask, idx, x.at(1) - 1 - idx[1], m);
                    assert(crate::value::value(y, mirrored, m) == crate::value::value(
                        there,
                        mirrored,
                        m,
                    ));
                }
            },
        }
    }

    /// The step keeps the shape of a signal.
    proof fn lemma_shape(self, x: Tensor, x_mask: Tensor, g: Option<Tensor>, reverse: bool)
        requires
            self.wf(x.at(1)),
            x.shape.rank() == 3,
            x_mask.shape.rank() == 3,
            x_mask.at(1) == 1,
        ensures
            self.forward_expr(x, x_mask, g, reverse).0.shape == x.shape,
    {
        match self {
            ResidualCouplingBlockLayers::ResidualCouplingLayer(layer) => {
                layer.lemma_shape(x, x_mask, g, reverse);
            },
            ResidualCouplingBlockLayers::Flip(_) => {
                reveal(Tensor::flip_expr);
            },
        }
    }
}

impl ResidualCouplingBlock {
    /// The steps keep the shape of a signal.
    pub proof fn lemma_shape(
        self,
        n: nat,
        x: Tensor,
        x_mask: Tensor,
        g: Option<Tensor>,
        reverse: bool,
    )
        requires
            n <= self.flows.len(),
            self.wf(x.at(1)),
            x.shape.rank() == 3,
            x_mask.shape.rank() == 3,
            x_mask.at(1) == 1,
        ensures
            self.after_expr(n, x, x_mask, g, reverse).shape == x.shape,
        decreases n,
    {
        if n > 0 {
            self.lemma_shape((n - 1) as nat, x, x_mask, g, reverse);
            let before = self.after_expr((n - 1) as nat, x, x_mask, g, reverse);
            assert(self.step(n - 1, reverse).wf(x.at(1)));
            self.step(n - 1, reverse).lemma_shape(before, x_mask, g, reverse);
        }
    }

    /// After `n` steps back the values are those that there were `n` steps before the end, wherever
    /// the mask is one.
    proof fn lemma_way_back(
        self,
        n: nat,
        x: Tensor,
        x_mask: Tensor,
        g: Option<Tensor>,
        reverse: bool,
        m: Reading,
    )
        requires
            n <= self.flows.len(),
            self.wf(x.at(1)),
            m.exponential(),
            is_mask(x_mask, x.shape, m),
        ensures
            ({
                let y = self.forward_expr(x, x_mask, g, reverse);
                let back = self.after_expr(n, y, x_mask, g, !reverse);
                &&& back.shape == x.shape
                &&& same_where(
                    back,
                    self.after_expr((self.flows.len() - n) as nat, x, x_mask, g, reverse),
                    x_mask,
                    x.shape,
                    m,
                )
            }),
        decreases n,
    {
        let y = self.forward_expr(x, x_mask, g, reverse);
        if n == 0 {
            self.lemma_shape(self.flows.len() as nat, x, x_mask, g, reverse);
        } else {
            self.lemma_way_back((n - 1) as nat, x, x_mask, g, reverse, m);
            let at = self.flows.len() - n;
            self.lemma_shape(at as nat, x, x_mask, g, reverse);
            let before = self.after_expr(at as nat, x, x_mask, g, reverse);
            let step = self.step(at, reverse);
            assert(step.wf(x.at(1)));
            assert(self.step(n - 1, !reverse) == step);
            step.lemma_undone_where(
                before,
                self.after_expr((n - 1) as nat, y, x_mask, g, !reverse),
                x_mask,
                g,
                reverse,
                m,
            );
        }
    }

    /// The way back undoes the way there: any signal, sent through the steps and then through them
    /// in reverse, comes back wherever the mask is one.
    pub proof fn lemma_reverse_undoes(
        self,
        x: Tensor,
        x_mask: Tensor,
        g: Option<Tensor>,
        m: Reading,
    )
        requires
            self.wf(x.at(1)),
            m.exponential(),
            is_mask(x_mask, x.shape, m),
        ensures
            ({
                let y = self.forward_expr(x, x_mask, g, false);
                let back = self.forward_expr(y, x_mask, g, true);
                &&& back.shape == x.shape
                &&& same_where(back, x, x_mask, x.shape, m)
            }),
    {
        self.lemma_way_back(self.flows.len() as nat, x, x_mask, g, false, m);
    }

    /// The way there undoes the way back: any signal, sent through the steps in reverse and then
    /// through them forward, comes back wherever the mask is one.
    pub proof fn lemma_forward_undoes(
        self,
        x: Tensor,
        x_mask: Tensor,
        g: Option<Tensor>,
        m: Reading,
    )
        requires
            self.wf(x.at(1)),
            m.exponential(),
            is_mask(x_mask, x.shape, m),
        ensures
            ({
                let y = self.forward_expr(x, x_mask, g, true);
                let back = self.forward_expr(y, x_mask, g, false);
                &&& y.shape == x.shape
                &&& back.shape == x.shape
                &&& same_where(back, x, x_mask, x.shape, m)
            }),
    {
        self.lemma_shape(self.flows.len() as nat, x, x_mask, g, true);
        self.lemma_way_back(self.flows.len() as nat, x, x_mask, g, true, m);
    }
}

impl Log {
    /// The way back undoes the way there: a signal comes back under the mask, but for what was
    /// below the floor, which comes back as the floor.
    pub proof fn lemma_undone(x: Tensor, x_mask: Tensor, idx: Seq<int>, m: Reading)
        requires
            m.exponential(),
            m.logarithmic(),
            x.shape.rank() == x_mask.shape.rank(),
            crate::value::value(x_mask, idx, m) == 0real || crate::value::value(x_mask, idx, m)
                == 1real,
        ensures
            crate::value::value(
                Log::forward_expr(Log::forward_expr(x, x_mask, false).0, x_mask, true).0,
                idx,
                m,
            ) == crate::value::greater(
                crate::value::value(x, idx, m),
                crate::number::double(LOG_FLOOR),
            ) * crate::value::value(x_mask, idx, m),
    {
        broadcast use crate::value::group_elementwise;

        let v = crate::value::value(x, idx, m);
        let k = crate::value::value(x_mask, idx, m);
        let floored = crate::value::greater(v, crate::number::double(LOG_FLOOR));
        crate::number::lemma_positive(LOG_FLOOR);
        let clamped = x.scalar_expr(
            crate::tensor::ScalarOp::ClampMin,
            crate::number::Scalar::literal_expr(LOG_FLOOR),
        );
        let logs = clamped.unary_expr(UnaryOp::Log);
        let y = logs.times_expr(x_mask);
        assert(logs.shape == x.shape && y.shape.rank() == x.shape.rank()
            && y.unary_expr(UnaryOp::Exp).shape == y.shape) by {
            reveal(Tensor::scalar_expr);
            reveal(Tensor::unary_expr);
            reveal(Tensor::binary_expr);
        }
        assert(crate::value::value(y, idx, m) == (m.log)(floored) * k);
        let back = (m.exp)((m.log)(floored) * k) * k;
        if k == 1real {
            assert((m.log)(floored) * k == (m.log)(floored)) by (nonlinear_arith)
                requires
                    k == 1real,
            ;
        } else {
            assert((m.exp)((m.log)(floored) * k) * k == 0real) by (nonlinear_arith)
                requires
                    k == 0real,
            ;
            assert(floored * k == 0real) by (nonlinear_arith)
                requires
                    k == 0real,
            ;
        }
        assert(back == floored * k);
    }

    /// The number on the side is the sum of the logarithms of the first signal, negated.
    pub proof fn lemma_logdet(x: Tensor, x_mask: Tensor, m: Reading)
        requires
            x.shape.rank() == 3,
            x_mask.shape.rank() == 3,
            x.shape.joined(x_mask.shape).at(0) >= 1,
        ensures
            ({
                let (y, logdet) = Log::forward_expr(x, x_mask, false);
                crate::value::single_value(logdet, m) == -crate::value::sum(
                    y.at(2) as nat,
                    |t: int|
                        crate::value::sum(
                            y.at(1) as nat,
                            |c: int| crate::value::value(y, seq![0, c, t], m),
                        ),
                )
            }),
    {
        broadcast use crate::value::group_elementwise;

        let y = Log::forward_expr(x, x_mask, false).0;
        let opposite = y.unary_expr(UnaryOp::Neg);
        let columns = opposite.sum_dim_expr(1);
        let origin = Seq::new(3, |d: int| 0int);
        assert(y.shape == x.shape.joined(x_mask.shape) && opposite.shape == y.shape) by {
            reveal(Tensor::scalar_expr);
            reveal(Tensor::unary_expr);
            reveal(Tensor::binary_expr);
        }
        assert(columns.shape == y.shape.resized(1, 1) && columns.sum_dim_expr(2).shape
            == Shape::D3(y.at(0), 1, 1)) by {
            reveal(Tensor::sum_dim_expr);
        }
        let row = |t: int| crate::value::value(columns, origin.update(2, t), m);
        let sums = |t: int|
            crate::value::sum(
                y.at(1) as nat,
                |c: int| crate::value::value(y, seq![0, c, t], m),
            );
        crate::value::lemma_sum_value(columns, 2, origin, m);
        assert forall|t: int| 0 <= t < y.at(2) implies #[trigger] row(t) == -sums(t) by {
            let at = origin.update(2, t);
            crate::value::lemma_sum_value(opposite, 1, at, m);
            let cells = |c: int| crate::value::value(opposite, at.update(1, c), m);
            let others = |c: int| crate::value::value(y, seq![0, c, t], m);
            assert forall|c: int| 0 <= c < y.at(1) implies #[trigger] cells(c) == -others(c) by {
                assert(at.update(1, c) =~= seq![0, c, t]);
            }
            crate::value::lemma_opposite_sum(y.at(1) as nat, cells, others);
        }
        crate::value::lemma_opposite_sum(y.at(2) as nat, row, sums);
    }
}

} // verus!

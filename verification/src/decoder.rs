//! What the decoder makes of frames, in real numbers, stage by stage.

use crate::generator::{Generator, ResBlock, ResBlock1, ResBlock2, LAST_SLOPE};
use crate::number::Scalar;
use crate::shape::Shape;
use crate::tensor::{BinaryOp, ScalarOp, Tensor, UnaryOp};
use crate::value::Reading;
use vstd::prelude::*;

verus! {

/// A number that is not negative, or a negative one times the slope.
pub open spec fn leaky(a: real, slope: real) -> real {
    if a < 0real {
        slope * a
    } else {
        a
    }
}

/// The value of a mask; one where there is none.
pub open spec fn passes(x_mask: Option<Tensor>, b: int, c: int, t: int, m: Reading) -> real {
    match x_mask {
        Some(mask) => crate::signals::at(mask, b, c, t, m),
        None => 1real,
    }
}

proof fn lemma_masked_value(
    x: Tensor,
    x_mask: Option<Tensor>,
    b: int,
    c: int,
    t: int,
    m: Reading,
)
    requires
        x.shape.rank() == 3,
        x_mask matches Some(mask) ==> mask.shape.rank() == 3 && x.shape.joined(mask.shape)
            == x.shape,
    ensures
        crate::generator::masked_expr(x, x_mask).shape == x.shape,
        crate::signals::at(crate::generator::masked_expr(x, x_mask), b, c, t, m)
            == crate::signals::at(x, b, c, t, m) * passes(x_mask, b, c, t, m),
{
    broadcast use crate::value::group_elementwise;

    reveal(Tensor::binary_expr);
    let a = crate::signals::at(x, b, c, t, m);
    assert(a * 1real == a);
}

impl ResBlock1 {
    /// A residual block of pairs of layers in real numbers. Each pair adds to the signal what its
    /// second layer makes of what its first makes of it, both after negative values were scaled
    /// down and what is masked was left out.
    pub proof fn lemma_value(self, x: Tensor, x_mask: Option<Tensor>, m: Reading) -> (r: (
        Seq<Tensor>,
        Seq<Tensor>,
        Seq<Tensor>,
    ))
        requires
            x.shape.rank() == 3,
            x.at(2) >= 1,
            self.wf(x.at(1)),
            self.takes_length(x.at(2)),
            crate::generator::mask_fits(x_mask, x.shape),
        ensures
            ({
                let (xs, firsts, seconds) = r;
                let n = self.convs1.len();
                let slope = crate::number::double(self.lrelu_slope.bits);
                &&& xs.len() == n + 1 && firsts.len() == n && seconds.len() == n
                &&& xs[0] == x
                &&& forall|i: int| 0 <= i <= n ==> (#[trigger] xs[i]).shape == x.shape
                &&& forall|i: int| 0 <= i < n ==> (#[trigger] firsts[i]).shape == x.shape
                &&& forall|i: int| 0 <= i < n ==> (#[trigger] seconds[i]).shape == x.shape
                &&& forall|i: int, b: int, c: int, t: int|
                    0 <= i < n ==> #[trigger] crate::signals::at(firsts[i], b, c, t, m) == leaky(
                        crate::signals::at(xs[i], b, c, t, m),
                        slope,
                    ) * passes(x_mask, b, c, t, m)
                &&& forall|i: int, b: int, c: int, t: int|
                    0 <= i < n ==> #[trigger] crate::signals::at(seconds[i], b, c, t, m) == leaky(
                        crate::signals::at(self.convs1@[i].forward_expr(firsts[i]), b, c, t, m),
                        slope,
                    ) * passes(x_mask, b, c, t, m)
                &&& forall|i: int, b: int, c: int, t: int|
                    1 <= i <= n ==> #[trigger] crate::signals::at(xs[i], b, c, t, m)
                        == crate::signals::at(xs[i - 1], b, c, t, m) + crate::signals::at(
                        self.convs2@[i - 1].forward_expr(seconds[i - 1]),
                        b,
                        c,
                        t,
                        m,
                    )
                &&& self.forward_expr(x, x_mask).shape == x.shape
                &&& forall|b: int, c: int, t: int| #[trigger]
                    crate::signals::at(self.forward_expr(x, x_mask), b, c, t, m)
                        == crate::signals::at(xs[n as int], b, c, t, m) * passes(
                        x_mask,
                        b,
                        c,
                        t,
                        m,
                    )
            }),
    {
        broadcast use crate::value::group_elementwise;

        let n = self.convs1.len() as nat;
        let slope = Scalar::Literal(self.lrelu_slope);
        let xs = Seq::new(n + 1, |i: int| self.after_expr(i as nat, x, x_mask));
        let firsts = Seq::new(
            n,
            |i: int|
                crate::generator::masked_expr(
                    xs[i].scalar_expr(ScalarOp::LeakyRelu, slope),
                    x_mask,
                ),
        );
        let seconds = Seq::new(
            n,
            |i: int|
                crate::generator::masked_expr(
                    self.convs1@[i].forward_expr(firsts[i]).scalar_expr(
                        ScalarOp::LeakyRelu,
                        slope,
                    ),
                    x_mask,
                ),
        );
        assert forall|i: int| 0 <= i <= n implies (#[trigger] xs[i]).shape == x.shape by {
            self.lemma_shape_after(i as nat, x, x_mask);
        }
        assert forall|i: int| 0 <= i < n implies (#[trigger] firsts[i]).shape == x.shape by {
            reveal(Tensor::scalar_expr);
            lemma_masked_value(
                xs[i].scalar_expr(ScalarOp::LeakyRelu, slope),
                x_mask,
                0,
                0,
                0,
                m,
            );
        }
        assert forall|i: int| 0 <= i < n implies (#[trigger] seconds[i]).shape == x.shape
            && self.convs1@[i].forward_expr(firsts[i]).shape == x.shape by {
            reveal(Tensor::scalar_expr);
            self.convs1@[i].lemma_shape(firsts[i]);
            lemma_masked_value(
                self.convs1@[i].forward_expr(firsts[i]).scalar_expr(ScalarOp::LeakyRelu, slope),
                x_mask,
                0,
                0,
                0,
                m,
            );
        }
        assert forall|i: int, b: int, c: int, t: int| 0 <= i < n implies #[trigger]
        crate::signals::at(firsts[i], b, c, t, m) == leaky(
            crate::signals::at(xs[i], b, c, t, m),
            crate::number::double(self.lrelu_slope.bits),
        ) * passes(x_mask, b, c, t, m) by {
            let y = xs[i].scalar_expr(ScalarOp::LeakyRelu, slope);
            assert(y.shape == x.shape) by {
                reveal(Tensor::scalar_expr);
            }
            lemma_masked_value(y, x_mask, b, c, t, m);
        }
        assert forall|i: int, b: int, c: int, t: int| 0 <= i < n implies #[trigger]
        crate::signals::at(seconds[i], b, c, t, m) == leaky(
            crate::signals::at(self.convs1@[i].forward_expr(firsts[i]), b, c, t, m),
            crate::number::double(self.lrelu_slope.bits),
        ) * passes(x_mask, b, c, t, m) by {
            let y = self.convs1@[i].forward_expr(firsts[i]).scalar_expr(
                ScalarOp::LeakyRelu,
                slope,
            );
            assert(seconds[i].shape == x.shape);
            assert(y.shape == x.shape) by {
                reveal(Tensor::scalar_expr);
            }
            lemma_masked_value(y, x_mask, b, c, t, m);
        }
        assert forall|i: int, b: int, c: int, t: int| 1 <= i <= n implies #[trigger]
        crate::signals::at(xs[i], b, c, t, m) == crate::signals::at(xs[i - 1], b, c, t, m)
            + crate::signals::at(
            self.convs2@[i - 1].forward_expr(seconds[i - 1]),
            b,
            c,
            t,
            m,
        ) by {
            assert(xs[i - 1].shape == x.shape && seconds[i - 1].shape == x.shape);
            self.convs2@[i - 1].lemma_shape(seconds[i - 1]);
            assert(xs[i] == self.convs2@[i - 1].forward_expr(seconds[i - 1]).plus_expr(xs[i - 1]));
        }
        assert(xs[n as int].shape == x.shape);
        lemma_masked_value(xs[n as int], x_mask, 0, 0, 0, m);
        assert forall|b: int, c: int, t: int| #[trigger]
            crate::signals::at(self.forward_expr(x, x_mask), b, c, t, m) == crate::signals::at(
                xs[n as int],
                b,
                c,
                t,
                m,
            ) * passes(x_mask, b, c, t, m) by {
            lemma_masked_value(xs[n as int], x_mask, b, c, t, m);
        }
        (xs, firsts, seconds)
    }

    proof fn lemma_shape_after(self, n: nat, x: Tensor, x_mask: Option<Tensor>)
        requires
            n <= self.convs1.len(),
            x.shape.rank() == 3,
            x.at(2) >= 1,
            self.wf(x.at(1)),
            self.takes_length(x.at(2)),
            crate::generator::mask_fits(x_mask, x.shape),
        ensures
            self.after_expr(n, x, x_mask).shape == x.shape,
        decreases n,
    {
        if n > 0 {
            self.lemma_shape_after((n - 1) as nat, x, x_mask);
            reveal(Tensor::scalar_expr);
            reveal(Tensor::binary_expr);
            let before = self.after_expr((n - 1) as nat, x, x_mask);
            let slope = Scalar::Literal(self.lrelu_slope);
            let first = crate::generator::masked_expr(
                before.scalar_expr(ScalarOp::LeakyRelu, slope),
                x_mask,
            );
            assert(first.shape == x.shape);
            self.convs1@[n - 1].lemma_shape(first);
            let second = crate::generator::masked_expr(
                self.convs1@[n - 1].forward_expr(first).scalar_expr(ScalarOp::LeakyRelu, slope),
                x_mask,
            );
            assert(second.shape == x.shape);
            self.convs2@[n - 1].lemma_shape(second);
        }
    }
}

impl ResBlock2 {
    proof fn lemma_shape_after(self, n: nat, x: Tensor, x_mask: Option<Tensor>)
        requires
            n <= self.convs.len(),
            x.shape.rank() == 3,
            x.at(2) >= 1,
            self.wf(x.at(1)),
            self.takes_length(x.at(2)),
            crate::generator::mask_fits(x_mask, x.shape),
        ensures
            self.after_expr(n, x, x_mask).shape == x.shape,
        decreases n,
    {
        if n > 0 {
            self.lemma_shape_after((n - 1) as nat, x, x_mask);
            reveal(Tensor::scalar_expr);
            reveal(Tensor::binary_expr);
            let before = self.after_expr((n - 1) as nat, x, x_mask);
            let first = crate::generator::masked_expr(
                before.scalar_expr(ScalarOp::LeakyRelu, Scalar::Literal(self.lrelu_slope)),
                x_mask,
            );
            assert(first.shape == x.shape);
            self.convs@[n - 1].lemma_shape(first);
        }
    }

    /// A residual block of single layers in real numbers. Each layer adds to the signal what it
    /// makes of it after negative values were scaled down and what is masked was left out.
    pub proof fn lemma_value(self, x: Tensor, x_mask: Option<Tensor>, m: Reading) -> (r: (
        Seq<Tensor>,
        Seq<Tensor>,
    ))
        requires
            x.shape.rank() == 3,
            x.at(2) >= 1,
            self.wf(x.at(1)),
            self.takes_length(x.at(2)),
            crate::generator::mask_fits(x_mask, x.shape),
        ensures
            ({
                let (xs, ins) = r;
                let n = self.convs.len();
                let slope = crate::number::double(self.lrelu_slope.bits);
                &&& xs.len() == n + 1 && ins.len() == n
                &&& xs[0] == x
                &&& forall|i: int| 0 <= i <= n ==> (#[trigger] xs[i]).shape == x.shape
                &&& forall|i: int| 0 <= i < n ==> (#[trigger] ins[i]).shape == x.shape
                &&& forall|i: int, b: int, c: int, t: int|
                    0 <= i < n ==> #[trigger] crate::signals::at(ins[i], b, c, t, m) == leaky(
                        crate::signals::at(xs[i], b, c, t, m),
                        slope,
                    ) * passes(x_mask, b, c, t, m)
                &&& forall|i: int, b: int, c: int, t: int|
                    1 <= i <= n ==> #[trigger] crate::signals::at(xs[i], b, c, t, m)
                        == crate::signals::at(xs[i - 1], b, c, t, m) + crate::signals::at(
                        self.convs@[i - 1].forward_expr(ins[i - 1]),
                        b,
                        c,
                        t,
                        m,
                    )
                &&& self.forward_expr(x, x_mask).shape == x.shape
                &&& forall|b: int, c: int, t: int| #[trigger]
                    crate::signals::at(self.forward_expr(x, x_mask), b, c, t, m)
                        == crate::signals::at(xs[n as int], b, c, t, m) * passes(
                        x_mask,
                        b,
                        c,
                        t,
                        m,
                    )
            }),
    {
        broadcast use crate::value::group_elementwise;

        let n = self.convs.len() as nat;
        let slope = Scalar::Literal(self.lrelu_slope);
        let xs = Seq::new(n + 1, |i: int| self.after_expr(i as nat, x, x_mask));
        let ins = Seq::new(
            n,
            |i: int|
                crate::generator::masked_expr(
                    xs[i].scalar_expr(ScalarOp::LeakyRelu, slope),
                    x_mask,
                ),
        );
        assert forall|i: int| 0 <= i <= n implies (#[trigger] xs[i]).shape == x.shape by {
            self.lemma_shape_after(i as nat, x, x_mask);
        }
        assert forall|i: int| 0 <= i < n implies (#[trigger] ins[i]).shape == x.shape by {
            reveal(Tensor::scalar_expr);
            lemma_masked_value(
                xs[i].scalar_expr(ScalarOp::LeakyRelu, slope),
                x_mask,
                0,
                0,
                0,
                m,
            );
        }
        assert forall|i: int, b: int, c: int, t: int| 0 <= i < n implies #[trigger]
        crate::signals::at(ins[i], b, c, t, m) == leaky(
            crate::signals::at(xs[i], b, c, t, m),
            crate::number::double(self.lrelu_slope.bits),
        ) * passes(x_mask, b, c, t, m) by {
            let y = xs[i].scalar_expr(ScalarOp::LeakyRelu, slope);
            assert(y.shape == x.shape) by {
                reveal(Tensor::scalar_expr);
            }
            lemma_masked_value(y, x_mask, b, c, t, m);
        }
        assert forall|i: int, b: int, c: int, t: int| 1 <= i <= n implies #[trigger]
        crate::signals::at(xs[i], b, c, t, m) == crate::signals::at(xs[i - 1], b, c, t, m)
            + crate::signals::at(
            self.convs@[i - 1].forward_expr(ins[i - 1]),
            b,
            c,
            t,
            m,
        ) by {
            assert(xs[i - 1].shape == x.shape && ins[i - 1].shape == x.shape);
            self.convs@[i - 1].lemma_shape(ins[i - 1]);
            assert(xs[i] == xs[i - 1].plus_expr(self.convs@[i - 1].forward_expr(ins[i - 1])));
        }
        assert(xs[n as int].shape == x.shape);
        lemma_masked_value(xs[n as int], x_mask, 0, 0, 0, m);
        assert forall|b: int, c: int, t: int| #[trigger]
            crate::signals::at(self.forward_expr(x, x_mask), b, c, t, m) == crate::signals::at(
                xs[n as int],
                b,
                c,
                t,
                m,
            ) * passes(x_mask, b, c, t, m) by {
            lemma_masked_value(xs[n as int], x_mask, b, c, t, m);
        }
        (xs, ins)
    }
}

impl ResBlock {
    /// A block keeps the shape of a signal.
    pub proof fn lemma_shape(self, x: Tensor)
        requires
            x.shape.rank() == 3,
            x.at(2) >= 1,
            self.wf(x.at(1)),
            self.takes_length(x.at(2)),
        ensures
            self.forward_expr(x, None).shape == x.shape,
    {
        match self {
            ResBlock::ResBlock1(b) => b.lemma_shape_after(b.convs1.len() as nat, x, None),
            ResBlock::ResBlock2(b) => b.lemma_shape_after(b.convs.len() as nat, x, None),
        }
    }
}


impl Generator {
    /// The sum of the blocks of a stage, which are met one after the other.
    proof fn lemma_summed(
        self,
        i: int,
        n: nat,
        x: Tensor,
        b: int,
        c: int,
        t: int,
        m: Reading,
    )
        requires
            i >= 0,
            self.num_kernels >= 1,
            x.shape.rank() == 3,
            self.blocks_take(i, x.at(1), x.at(2)),
            i * self.num_kernels < n <= self.resblocks.len(),
        ensures
            self.summed_expr(i, n, x).shape == x.shape,
            ({
                let first = i * self.num_kernels;
                let count = if n - first < self.num_kernels {
                    n - first
                } else {
                    self.num_kernels as int
                };
                crate::signals::at(self.summed_expr(i, n, x), b, c, t, m) == crate::value::sum(
                    count as nat,
                    |j: int|
                        crate::signals::at(
                            self.resblocks@[i * self.num_kernels + j].forward_expr(x, None),
                            b,
                            c,
                            t,
                            m,
                        ),
                )
            }),
        decreases n,
    {
        broadcast use crate::value::group_elementwise;

        reveal(Tensor::binary_expr);
        let first = i * self.num_kernels;
        assert(first >= 0) by (nonlinear_arith)
            requires
                i >= 0,
                first == i * self.num_kernels,
        ;
        let parts = |j: int|
            crate::signals::at(
                self.resblocks@[i * self.num_kernels + j].forward_expr(x, None),
                b,
                c,
                t,
                m,
            );
        let block = self.resblocks@[n - 1];
        if self.uses(i, n - 1) {
            assert(block.wf(x.at(1)));
            block.lemma_shape(x);
        }
        if n - 1 == first {
            assert(crate::value::sum(1, parts) == crate::value::sum(0, parts) + parts(0));
        } else {
            self.lemma_summed(i, (n - 1) as nat, x, b, c, t, m);
            if self.uses(i, n - 1) {
                assert(parts(n - 1 - first) == crate::signals::at(
                    block.forward_expr(x, None),
                    b,
                    c,
                    t,
                    m,
                ));
            }
        }
    }

    /// The shape of the signal between the stages.
    proof fn lemma_shape_after(self, n: nat, x: Tensor)
        requires
            n <= self.ups.len(),
            self.num_kernels >= 1,
            self.resblocks.len() >= self.ups.len() * self.num_kernels,
            x.shape.rank() == 3,
            forall|i: int| 0 <= i < self.ups.len() ==> #[trigger] self.stage_takes(i, x.shape),
        ensures
            self.after_expr(n, x).shape == self.shape_after(n, x.shape),
            self.after_expr(n, x).shape.rank() == 3,
        decreases n,
    {
        if n > 0 {
            let i = n - 1;
            self.lemma_shape_after((n - 1) as nat, x);
            assert(self.stage_takes(i, x.shape));
            let raised = self.raised_expr(i, x);
            self.lemma_raised(i, x);
            assert(i * self.num_kernels < self.ups.len() * self.num_kernels) by (nonlinear_arith)
                requires
                    i < self.ups.len(),
                    self.num_kernels >= 1,
            ;
            let m = arbitrary();
            self.lemma_summed(i, self.resblocks.len() as nat, raised, 0, 0, 0, m);
            reveal(Tensor::scalar_expr);
        }
    }

    /// The signal of a stage after it was raised to more positions.
    spec fn raised_expr(self, i: int, x: Tensor) -> Tensor {
        self.ups@[i].forward_expr(
            self.after_expr(i as nat, x).scalar_expr(
                ScalarOp::LeakyRelu,
                Scalar::Literal(self.lrelu_slope),
            ),
        )
    }

    proof fn lemma_raised(self, i: int, x: Tensor)
        requires
            0 <= i < self.ups.len(),
            self.after_expr(i as nat, x).shape == self.shape_after(i as nat, x.shape),
            self.after_expr(i as nat, x).shape.rank() == 3,
            self.stage_takes(i, x.shape),
        ensures
            self.raised_expr(i, x).shape == Shape::D3(
                self.shape_after(i as nat, x.shape).at(0),
                self.ups@[i].channels_out(),
                self.ups@[i].length_out(self.shape_after(i as nat, x.shape).at(2)) as usize,
            ),
    {
        reveal(Tensor::leaf_expr);
        reveal(Tensor::scalar_expr);
        reveal(Tensor::binary_expr);
        reveal(Tensor::sum_dim_expr);
        reveal(Tensor::unary_expr);
        reveal(Tensor::conv_transpose1d_expr);
    }

    /// What a stage yields, times the number of its blocks.
    proof fn lemma_stage(
        self,
        k: int,
        start: Tensor,
        b: int,
        c: int,
        t: int,
        m: Reading,
    )
        requires
            0 <= k < self.ups.len(),
            self.num_kernels >= 1,
            self.resblocks.len() >= self.ups.len() * self.num_kernels,
            start.shape.rank() == 3,
            forall|i: int| 0 <= i < self.ups.len() ==> #[trigger] self.stage_takes(i, start.shape),
        ensures
            (self.num_kernels as int as real) * crate::signals::at(
                self.after_expr((k + 1) as nat, start),
                b,
                c,
                t,
                m,
            ) == crate::value::sum(
                self.num_kernels as nat,
                |j: int|
                    crate::signals::at(
                        self.resblocks@[k * self.num_kernels + j].forward_expr(
                            self.raised_expr(k, start),
                            None,
                        ),
                        b,
                        c,
                        t,
                        m,
                    ),
            ),
    {
        self.lemma_shape_after(k as nat, start);
        assert(self.stage_takes(k, start.shape));
        let raised = self.raised_expr(k, start);
        self.lemma_raised(k, start);
        assert(k * self.num_kernels + self.num_kernels <= self.ups.len() * self.num_kernels)
            by (nonlinear_arith)
            requires
                k + 1 <= self.ups.len(),
        ;
        let all = self.resblocks.len() as nat;
        self.lemma_summed(k, all, raised, b, c, t, m);
        let summed = self.summed_expr(k, all, raised);
        crate::value::lemma_scalar_value(
            summed,
            ScalarOp::Div,
            Scalar::SingleCount(self.num_kernels),
            seq![b, c, t],
            m,
        );
        let count = self.num_kernels as int as real;
        let a = crate::signals::at(summed, b, c, t, m);
        assert(count * (a / count) == a) by (nonlinear_arith)
            requires
                count > 0real,
        ;
    }

    /// The decoder in real numbers. Frames enter through the first convolution, with the condition
    /// added. Before each stage negative values are scaled down; the stage then raises the number
    /// of positions and yields the mean of what its residual blocks make of the raised signal. The
    /// samples are the hyperbolic tangent of what the last convolution makes of the signal after
    /// the last stage.
    pub proof fn lemma_value(self, x: Tensor, g: Option<Tensor>, m: Reading) -> (r: (
        Seq<Tensor>,
        Seq<Tensor>,
    ))
        requires
            x.shape.rank() == 3,
            self.takes_shape(x.shape, g),
            self.num_kernels >= 1,
            self.resblocks.len() >= self.ups.len() * self.num_kernels,
        ensures
            ({
                let (xs, ins) = r;
                let n = self.ups.len();
                let entry = self.entry_shape(x.shape, g);
                &&& xs.len() == n + 1 && ins.len() == n + 1
                &&& forall|i: int|
                    0 <= i <= n ==> (#[trigger] xs[i]).shape == self.shape_after(i as nat, entry)
                &&& forall|i: int| 0 <= i <= n ==> (#[trigger] ins[i]).shape == xs[i].shape
                &&& forall|b: int, c: int, t: int| #[trigger]
                    crate::signals::at(xs[0], b, c, t, m) == crate::signals::at(
                        self.conv_pre.forward_expr(x),
                        b,
                        c,
                        t,
                        m,
                    ) + match (g, self.cond) {
                        (Some(g), Some(cond)) => crate::signals::at(
                            cond.forward_expr(g),
                            b,
                            c,
                            t,
                            m,
                        ),
                        _ => 0real,
                    }
                &&& forall|i: int, b: int, c: int, t: int|
                    0 <= i <= n ==> #[trigger] crate::signals::at(ins[i], b, c, t, m) == leaky(
                        crate::signals::at(xs[i], b, c, t, m),
                        crate::number::double(
                            if i < n {
                                self.lrelu_slope.bits
                            } else {
                                LAST_SLOPE
                            },
                        ),
                    )
                &&& forall|i: int, b: int, c: int, t: int|
                    1 <= i <= n ==> (self.num_kernels as int as real) * #[trigger]
                    crate::signals::at(xs[i], b, c, t, m) == crate::value::sum(
                        self.num_kernels as nat,
                        |j: int|
                            crate::signals::at(
                                self.resblocks@[(i - 1) * self.num_kernels + j].forward_expr(
                                    self.ups@[i - 1].forward_expr(ins[i - 1]),
                                    None,
                                ),
                                b,
                                c,
                                t,
                                m,
                            ),
                    )
                &&& forall|b: int, c: int, t: int| #[trigger]
                    crate::signals::at(self.forward_expr(x, g), b, c, t, m) == (m.tanh)(
                        crate::signals::at(
                            self.conv_post.forward_expr(ins[n as int]),
                            b,
                            c,
                            t,
                            m,
                        ),
                    )
            }),
    {
        let n = self.ups.len() as nat;
        let start = self.entry_expr(x, g);
        let xs = Seq::new(n + 1, |i: int| self.after_expr(i as nat, start));
        let ins = Seq::new(
            n + 1,
            |i: int|
                xs[i].scalar_expr(
                    ScalarOp::LeakyRelu,
                    if i < n {
                        Scalar::Literal(self.lrelu_slope)
                    } else {
                        Scalar::literal_expr(LAST_SLOPE)
                    },
                ),
        );
        assert(self.conv_pre.forward_expr(x).shape == self.conv_pre.shape_out(x.shape)) by {
            reveal(Tensor::leaf_expr);
            reveal(Tensor::conv1d_expr);
        }
        assert(start.shape == self.entry_shape(x.shape, g)) by {
            reveal(Tensor::leaf_expr);
            reveal(Tensor::conv1d_expr);
            reveal(Tensor::binary_expr);
        }
        assert forall|b: int, c: int, t: int| #[trigger]
            crate::signals::at(xs[0], b, c, t, m) == crate::signals::at(
                self.conv_pre.forward_expr(x),
                b,
                c,
                t,
                m,
            ) + match (g, self.cond) {
                (Some(g), Some(cond)) => crate::signals::at(cond.forward_expr(g), b, c, t, m),
                _ => 0real,
            } by {
            assert(xs[0] == start);
            if let (Some(g), Some(cond)) = (g, self.cond) {
                assert(cond.forward_expr(g).shape.rank() == 3) by {
                    reveal(Tensor::leaf_expr);
                    reveal(Tensor::conv1d_expr);
                }
                crate::value::lemma_binary_value(
                    self.conv_pre.forward_expr(x),
                    BinaryOp::Add,
                    cond.forward_expr(g),
                    seq![b, c, t],
                    m,
                );
            }
        }
        assert forall|i: int, b: int, c: int, t: int| 0 <= i <= n implies #[trigger]
        crate::signals::at(ins[i], b, c, t, m) == leaky(
            crate::signals::at(xs[i], b, c, t, m),
            crate::number::double(
                if i < n {
                    self.lrelu_slope.bits
                } else {
                    LAST_SLOPE
                },
            ),
        ) by {
            let slope = if i < n {
                Scalar::Literal(self.lrelu_slope)
            } else {
                Scalar::literal_expr(LAST_SLOPE)
            };
            crate::value::lemma_scalar_value(
                xs[i],
                ScalarOp::LeakyRelu,
                slope,
                seq![b, c, t],
                m,
            );
        }
        assert forall|i: int| 0 <= i <= n implies (#[trigger] xs[i]).shape == self.shape_after(
            i as nat,
            start.shape,
        ) && xs[i].shape.rank() == 3 by {
            self.lemma_shape_after(i as nat, start);
        }
        assert forall|i: int| 0 <= i <= n implies (#[trigger] ins[i]).shape == xs[i].shape by {
            reveal(Tensor::scalar_expr);
        }
        let count = self.num_kernels as int as real;
        assert forall|i: int, b: int, c: int, t: int| 1 <= i <= n implies count * #[trigger]
        crate::signals::at(xs[i], b, c, t, m) == crate::value::sum(
            self.num_kernels as nat,
            |j: int|
                crate::signals::at(
                    self.resblocks@[(i - 1) * self.num_kernels + j].forward_expr(
                        self.ups@[i - 1].forward_expr(ins[i - 1]),
                        None,
                    ),
                    b,
                    c,
                    t,
                    m,
                ),
        ) by {
            self.lemma_stage(i - 1, start, b, c, t, m);
            assert(self.ups@[i - 1].forward_expr(ins[i - 1]) == self.raised_expr(i - 1, start));
        }
        assert forall|b: int, c: int, t: int| #[trigger]
            crate::signals::at(self.forward_expr(x, g), b, c, t, m) == (m.tanh)(
                crate::signals::at(self.conv_post.forward_expr(ins[n as int]), b, c, t, m),
            ) by {
            crate::value::lemma_unary_value(
                self.conv_post.forward_expr(ins[n as int]),
                UnaryOp::Tanh,
                seq![b, c, t],
                m,
            );
        }
        (xs, ins)
    }
}

} // verus!

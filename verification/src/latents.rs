//! What the latent frames are that the decoder gets, in real numbers.

use crate::number::{Real, Scalar};
use crate::shape::Shape;
use crate::synthesizer::{Prediction, SynthesizerTrn};
use crate::tensor::{BinaryOp, Noise, ScalarOp, Tensor, UnaryOp};
use crate::value::Reading;
use crate::vits::VitsModel;
use vstd::prelude::*;

verus! {

/// Which positions lie below each length.
proof fn lemma_sequence_value(lengths: Tensor, n: usize, row: int, at: int, m: Reading)
    requires
        lengths.shape.rank() == 1,
        0 <= row < lengths.at(0),
        0 <= at < n,
    ensures
        crate::encoder::sequence_mask_expr(lengths, n).shape == Shape::D2(lengths.at(0), n),
        crate::value::value(crate::encoder::sequence_mask_expr(lengths, n), seq![row, at], m)
            == crate::value::truth((at as real) < crate::value::value(lengths, seq![row], m)),
{
    let positions = Tensor::arange_expr(n);
    let across = positions.unsqueeze_expr(0);
    let down = lengths.unsqueeze_expr(1);
    assert(positions.shape == Shape::D1(n) && across.shape == Shape::D2(1, n) && down.shape
        == Shape::D2(lengths.at(0), 1) && across.binary_expr(BinaryOp::Lower, down).shape
        == Shape::D2(lengths.at(0), n)) by {
        reveal(Tensor::leaf_expr);
        reveal(Tensor::reshape_expr);
        reveal(Tensor::binary_expr);
    }
    let idx = seq![row, at];
    crate::value::lemma_binary_value(across, BinaryOp::Lower, down, idx, m);
    let (left, right) = (seq![0, at], seq![row, 0]);
    assert(crate::element::within(across.shape, left) && crate::element::within(
        positions.shape,
        seq![at],
    ));
    crate::value::lemma_reshape_value(positions, across.shape, left, seq![at], m);
    assert(crate::element::unstretched(across.shape, idx) =~= crate::element::unstretched(
        across.shape,
        left,
    ));
    crate::value::lemma_stretched(across, idx, left, m);
    assert(crate::element::within(down.shape, right) && crate::element::within(
        lengths.shape,
        seq![row],
    ));
    crate::value::lemma_reshape_value(lengths, down.shape, right, seq![row], m);
    assert(crate::element::unstretched(down.shape, idx) =~= crate::element::unstretched(
        down.shape,
        right,
    ));
    crate::value::lemma_stretched(down, idx, right, m);
    assert(crate::value::value(positions, seq![at], m) == at as real) by {
        reveal(Tensor::leaf_expr);
        crate::element::lemma_unstretched(positions.shape, seq![at]);
    }
}

/// Whether the frame `y` of a row comes before the end of phoneme `x`, when the phonemes follow one
/// another.
pub open spec fn ended(duration: Tensor, b: int, x: int, y: int, m: Reading) -> real {
    crate::value::truth(
        (y as real) < crate::value::truncated(
            crate::value::sum(
                (x + 1) as nat,
                |k: int| crate::signals::at(duration, b, 0, k, m),
            ),
        ) as real,
    )
}

proof fn lemma_started_value(
    duration: Tensor,
    b: usize,
    t_x: usize,
    t_y: usize,
    row: int,
    x: int,
    y: int,
    m: Reading,
)
    requires
        duration.shape == Shape::D3(b, 1, t_x),
        b * t_x <= usize::MAX,
        0 <= row < b,
        0 <= x < t_x,
        0 <= y < t_y,
    ensures
        crate::synthesizer::started_expr(duration, b, t_x, t_y).shape == Shape::D3(b, t_x, t_y),
        crate::signals::at(
            crate::synthesizer::started_expr(duration, b, t_x, t_y),
            row,
            x,
            y,
            m,
        ) == ended(duration, row, x, y, m),
{
    let sums = duration.cumsum_expr(2);
    let all = (b * t_x) as usize;
    let line = sums.reshape_expr(Shape::D1(all));
    let whole = line.unary_expr(UnaryOp::ToInt);
    let table = crate::encoder::sequence_mask_expr(whole, t_y);
    let ones = table.unary_expr(UnaryOp::ToFloat);
    let place = row * t_x + x;
    assert(0 <= place < all) by (nonlinear_arith)
        requires
            0 <= row < b,
            0 <= x < t_x,
            place == row * t_x + x,
            all == b * t_x,
    ;
    let from = seq![row, 0, x];
    assert(crate::element::within(duration.shape, from));
    crate::value::lemma_cumsum_value(duration, 2, from, m);
    let one = |k: int| crate::value::value(duration, from.update(2, k), m);
    let other = |k: int| crate::signals::at(duration, row, 0, k, m);
    assert forall|k: int| 0 <= k < x + 1 implies #[trigger] one(k) == other(k) by {
        assert(from.update(2, k) =~= seq![row, 0, k]);
    }
    crate::value::lemma_same_sum((x + 1) as nat, one, other);
    assert(crate::element::within(Shape::D1(all), seq![place]));
    assert(row * 1 + 0 == row);
    crate::value::lemma_reshape_value(sums, Shape::D1(all), seq![place], from, m);
    crate::value::lemma_unary_value(line, UnaryOp::ToInt, seq![place], m);
    assert(whole.shape == Shape::D1(all)) by {
        reveal(Tensor::unary_expr);
        reveal(Tensor::reshape_expr);
    }
    lemma_sequence_value(whole, t_y, place, y, m);
    crate::value::lemma_unary_value(table, UnaryOp::ToFloat, seq![place, y], m);
    assert(ones.shape == table.shape) by {
        reveal(Tensor::unary_expr);
    }
    assert(crate::element::within(Shape::D3(b, t_x, t_y), seq![row, x, y]));
    assert(crate::element::within(ones.shape, seq![place, y]));
    crate::value::lemma_reshape_value(
        ones,
        Shape::D3(b, t_x, t_y),
        seq![row, x, y],
        seq![place, y],
        m,
    );
}

/// The alignment in real numbers: within the mask, a frame is joined to a phoneme where it comes
/// before the end of that phoneme but not before the end of the one before it.
pub proof fn lemma_path_value(
    duration: Tensor,
    mask: Tensor,
    b: int,
    y: int,
    x: int,
    m: Reading,
)
    requires
        mask.shape.rank() == 4,
        mask.at(1) == 1,
        duration.shape == Shape::D3(mask.at(0), 1, mask.at(3)),
        mask.at(0) * mask.at(3) <= usize::MAX,
        mask.at(3) < usize::MAX,
        crate::element::within(mask.shape, seq![b, 0, y, x]),
    ensures
        crate::synthesizer::generate_path_expr(duration, mask).shape == mask.shape,
        crate::value::value(
            crate::synthesizer::generate_path_expr(duration, mask),
            seq![b, 0, y, x],
            m,
        ) == (ended(duration, b, x, y, m) - if x > 0 {
            ended(duration, b, x - 1, y, m)
        } else {
            0real
        }) * crate::value::value(mask, seq![b, 0, y, x], m),
{
    let (rows, t_y, t_x) = (mask.at(0), mask.at(2), mask.at(3));
    let idx = seq![b, 0, y, x];
    assert(idx[0] == b && idx[2] == y && idx[3] == x);
    let start = crate::synthesizer::started_expr(duration, rows, t_x, t_y);
    lemma_started_value(duration, rows, t_x, t_y, b, x, y, m);
    let padded = start.pad_expr(1, 1, 0);
    let moved = padded.slice_expr(1, 0, t_x);
    let shape = Shape::D3(rows, t_x, t_y);
    assert(padded.shape == Shape::D3(rows, (t_x + 1) as usize, t_y) && moved.shape == shape) by {
        reveal(Tensor::pad_expr);
        reveal(Tensor::slice_expr);
    }
    let three = seq![b, x, y];
    assert(crate::element::within(shape, three) && crate::element::within(padded.shape, three));
    crate::value::lemma_slice_value(padded, 1, 0, t_x, three, m);
    assert(three.update(1, x + 0) =~= three);
    crate::value::lemma_pad_value(start, 1, 1, 0, three, m);
    if x > 0 {
        assert(three.update(1, x - 1) =~= seq![b, x - 1, y]);
        lemma_started_value(duration, rows, t_x, t_y, b, x - 1, y, m);
    }
    crate::value::lemma_binary_value(start, BinaryOp::Sub, moved, three, m);
    let path = start.minus_expr(moved);
    assert(path.shape == shape) by {
        reveal(Tensor::binary_expr);
    }
    let raised = path.unsqueeze_expr(1);
    let four = seq![b, 0, x, y];
    assert(raised.shape == Shape::D4(rows, 1, t_x, t_y)) by {
        reveal(Tensor::reshape_expr);
    }
    assert(crate::element::within(raised.shape, four));
    assert(b * 1 + 0 == b);
    crate::value::lemma_reshape_value(path, raised.shape, four, three, m);
    assert(raised.shape.swapped(2, 3) == mask.shape);
    crate::signals::lemma_swap_value(raised, 2, 3, idx, m);
    assert(crate::value::swapped(idx, 2, 3) =~= four);
    crate::value::lemma_binary_value(
        raised.swap_dims_expr(2, 3),
        BinaryOp::Mul,
        mask,
        idx,
        m,
    );
    assert(crate::synthesizer::generate_path_expr(duration, mask).shape == mask.shape) by {
        reveal(Tensor::binary_expr);
    }
}

/// How much of phoneme `x` there is in frame `y`: all of it where the frame lies within both masks
/// and belongs to the phoneme, and otherwise nothing.
pub open spec fn share(
    prediction: Prediction,
    y_mask: Tensor,
    y: int,
    x: int,
    m: Reading,
) -> real {
    (ended(prediction.w_ceil, 0, x, y, m) - if x > 0 {
        ended(prediction.w_ceil, 0, x - 1, y, m)
    } else {
        0real
    }) * (crate::signals::at(prediction.x_mask, 0, 0, x, m) * crate::signals::at(
        y_mask,
        0,
        0,
        y,
        m,
    ))
}

/// What is known of the phonemes in a channel, each taken as often as there is of it in a frame.
pub open spec fn spread_over(
    prediction: Prediction,
    known: Tensor,
    y_mask: Tensor,
    c: int,
    y: int,
    m: Reading,
) -> real {
    crate::value::sum(
        known.at(2) as nat,
        |x: int| share(prediction, y_mask, y, x, m) * crate::signals::at(known, 0, c, x, m),
    )
}

impl SynthesizerTrn {
    proof fn lemma_share(
        prediction: Prediction,
        y_mask: Tensor,
        frames: usize,
        y: int,
        x: int,
        m: Reading,
    )
        requires
            prediction.w_ceil.shape == Shape::D3(1, 1, prediction.w_ceil.at(2)),
            prediction.x_mask.shape == prediction.w_ceil.shape,
            prediction.w_ceil.at(2) < usize::MAX,
            y_mask.shape == Shape::D3(1, 1, frames),
            0 <= y < frames,
            0 <= x < prediction.w_ceil.at(2),
        ensures
            ({
                let attn = SynthesizerTrn::alignment_expr(prediction, y_mask);
                &&& attn.shape == Shape::D4(1, 1, frames, prediction.w_ceil.at(2))
                &&& crate::value::value(attn, seq![0, 0, y, x], m) == share(
                    prediction,
                    y_mask,
                    y,
                    x,
                    m,
                )
            }),
    {
        let t_x = prediction.w_ceil.at(2);
        let wide = prediction.x_mask.unsqueeze_expr(2);
        let tall = y_mask.unsqueeze_expr(3);
        let mask = wide.times_expr(tall);
        assert(wide.shape == Shape::D4(1, 1, 1, t_x) && tall.shape == Shape::D4(1, 1, frames, 1)
            && mask.shape == Shape::D4(1, 1, frames, t_x)) by {
            reveal(Tensor::reshape_expr);
            reveal(Tensor::binary_expr);
        }
        let idx = seq![0, 0, y, x];
        assert(crate::element::within(mask.shape, idx));
        crate::value::lemma_binary_value(wide, BinaryOp::Mul, tall, idx, m);
        let (left, right) = (seq![0, 0, 0, x], seq![0, 0, y, 0]);
        assert(crate::element::within(wide.shape, left) && crate::element::within(
            prediction.x_mask.shape,
            seq![0, 0, x],
        ));
        assert(crate::element::within(tall.shape, right) && crate::element::within(
            y_mask.shape,
            seq![0, 0, y],
        ));
        crate::value::lemma_reshape_value(
            prediction.x_mask,
            wide.shape,
            left,
            seq![0, 0, x],
            m,
        );
        crate::value::lemma_reshape_value(y_mask, tall.shape, right, seq![0, 0, y], m);
        assert(crate::element::unstretched(wide.shape, idx) =~= crate::element::unstretched(
            wide.shape,
            left,
        ));
        assert(crate::element::unstretched(tall.shape, idx) =~= crate::element::unstretched(
            tall.shape,
            right,
        ));
        crate::value::lemma_stretched(wide, idx, left, m);
        crate::value::lemma_stretched(tall, idx, right, m);
        vstd::arithmetic::mul::lemma_mul_basics(t_x as int);
        lemma_path_value(prediction.w_ceil, mask, 0, y, x, m);
    }

    proof fn lemma_spread(
        prediction: Prediction,
        known: Tensor,
        y_mask: Tensor,
        frames: usize,
        c: int,
        y: int,
        m: Reading,
    )
        requires
            prediction.w_ceil.shape == Shape::D3(1, 1, prediction.w_ceil.at(2)),
            prediction.x_mask.shape == prediction.w_ceil.shape,
            1 <= prediction.w_ceil.at(2) < usize::MAX,
            known.shape == Shape::D3(1, known.at(1), prediction.w_ceil.at(2)),
            y_mask.shape == Shape::D3(1, 1, frames),
            0 <= y < frames,
            0 <= c < known.at(1),
        ensures
            ({
                let attn = SynthesizerTrn::alignment_expr(prediction, y_mask);
                let spread = SynthesizerTrn::spread_expr(attn, known);
                &&& spread.shape == Shape::D3(1, known.at(1), frames)
                &&& crate::signals::at(spread, 0, c, y, m) == spread_over(
                    prediction,
                    known,
                    y_mask,
                    c,
                    y,
                    m,
                )
            }),
    {
        let t_x = prediction.w_ceil.at(2);
        let attn = SynthesizerTrn::alignment_expr(prediction, y_mask);
        SynthesizerTrn::lemma_share(prediction, y_mask, frames, y, 0, m);
        let flat = attn.squeeze_expr(1);
        let turned = known.swap_dims_expr(1, 2);
        let product = flat.matmul_expr(turned);
        assert(flat.shape == Shape::D3(1, frames, t_x) && turned.shape == Shape::D3(
            1,
            t_x,
            known.at(1),
        ) && product.shape == Shape::D3(1, frames, known.at(1))) by {
            reveal(Tensor::reshape_expr);
            reveal(Tensor::swap_dims_expr);
            reveal(Tensor::matmul_expr);
        }
        let (idx, there) = (seq![0, c, y], seq![0, y, c]);
        assert(crate::element::within(product.shape.swapped(1, 2), idx));
        crate::signals::lemma_swap_value(product, 1, 2, idx, m);
        assert(crate::value::swapped(idx, 1, 2) =~= there);
        assert(crate::element::within(product.shape, there));
        crate::signals::lemma_matmul_value(flat, turned, there, m);
        let one = |k: int|
            crate::value::value(flat, there.update(2, k), m) * crate::value::value(
                turned,
                there.update(1, k),
                m,
            );
        let other = |x: int|
            share(prediction, y_mask, y, x, m) * crate::signals::at(known, 0, c, x, m);
        assert forall|k: int| 0 <= k < t_x implies #[trigger] one(k) == other(k) by {
            assert(there.update(2, k) =~= seq![0, y, k]);
            assert(there.update(1, k) =~= seq![0, k, c]);
            SynthesizerTrn::lemma_share(prediction, y_mask, frames, y, k, m);
            assert(crate::element::within(flat.shape, seq![0, y, k]));
            assert(crate::element::within(attn.shape, seq![0, 0, y, k]));
            crate::value::lemma_reshape_value(
                attn,
                flat.shape,
                seq![0, y, k],
                seq![0, 0, y, k],
                m,
            );
            assert(crate::element::within(known.shape.swapped(1, 2), seq![0, k, c]));
            crate::signals::lemma_swap_value(known, 1, 2, seq![0, k, c], m);
            assert(crate::value::swapped(seq![0, k, c], 1, 2) =~= seq![0, c, k]);
        }
        crate::value::lemma_same_sum(t_x as nat, one, other);
    }

    /// Whether latent frames are those of a prediction, in real numbers. Before the flow a frame is
    /// drawn around the mean of the phoneme that it belongs to, as far away as the deviation of the
    /// phoneme, the noise and its scale say. The flow, forward, takes the frames after it to these
    /// within the mask. Of those the first are kept, and nothing beyond the mask.
    pub open spec fn latent(
        self,
        prediction: Prediction,
        frames: usize,
        noise_scale: Real,
        max_len: Option<usize>,
        z_p: Tensor,
        z: Tensor,
        kept: Tensor,
        m: Reading,
    ) -> bool {
        let channels = self.inter_channels();
        let y_mask = crate::encoder::signal_mask_expr(prediction.y_lengths, frames);
        let length = crate::value::value(prediction.y_lengths, seq![0], m);
        let count = match max_len {
            Some(val) if val < frames => val + 1,
            _ => frames as int,
        };
        &&& z_p.shape == Shape::D3(1, channels, frames)
        &&& forall|c: int, y: int|
            0 <= c < channels && 0 <= y < frames ==> #[trigger] crate::signals::at(z_p, 0, c, y, m)
                == spread_over(prediction, prediction.m_p, y_mask, c, y, m) + (m.noise)(
                Noise::Prior,
                seq![0, c, y],
            ) * (m.exp)(spread_over(prediction, prediction.logs_p, y_mask, c, y, m))
                * crate::number::double(noise_scale.bits)
        &&& z.shape == z_p.shape
        &&& forall|c: int, y: int|
            0 <= c < channels && 0 <= y < frames && (y as real) < length ==> #[trigger]
            crate::signals::at(self.flow.forward_expr(z, y_mask, None, false), 0, c, y, m)
                == crate::signals::at(z_p, 0, c, y, m)
        &&& kept.shape == Shape::D3(1, channels, count as usize)
        &&& forall|c: int, y: int|
            0 <= c < channels && 0 <= y < count ==> #[trigger] crate::signals::at(kept, 0, c, y, m)
                == if (y as real) < length {
                crate::signals::at(z, 0, c, y, m)
            } else {
                0real
            }
    }

    /// The decoder gets the latent frames of the prediction.
    pub proof fn lemma_latents(
        self,
        prediction: Prediction,
        frames: usize,
        noise_scale: Real,
        max_len: Option<usize>,
        m: Reading,
    ) -> (r: (Tensor, Tensor, Tensor))
        requires
            self.wf(),
            m.exponential(),
            prediction.wf(prediction.w_ceil.at(2), self.inter_channels()),
            1 <= prediction.w_ceil.at(2) < usize::MAX,
            frames >= 1,
        ensures
            self.latent(prediction, frames, noise_scale, max_len, r.0, r.1, r.2, m),
            self.decode_expr(prediction, frames, noise_scale, max_len) == self.dec.forward_expr(
                r.2,
                None,
            ),
    {
        let channels = self.inter_channels();
        let y_mask = crate::encoder::signal_mask_expr(prediction.y_lengths, frames);
        let length = crate::value::value(prediction.y_lengths, seq![0], m);
        let shape = Shape::D3(1, channels, frames);
        let z_p = SynthesizerTrn::prior_expr(prediction, y_mask, noise_scale);
        let z = self.flow.forward_expr(z_p, y_mask, None, true);
        let count = crate::synthesizer::kept_frames(max_len, frames);
        let kept = z.times_expr(y_mask).slice_expr(2, 0, count);
        assert(y_mask.shape == Shape::D3(1, 1, frames)) by {
            reveal(Tensor::leaf_expr);
            reveal(Tensor::reshape_expr);
            reveal(Tensor::binary_expr);
            reveal(Tensor::unary_expr);
        }
        let attn = SynthesizerTrn::alignment_expr(prediction, y_mask);
        let means = SynthesizerTrn::spread_expr(attn, prediction.m_p);
        let logs = SynthesizerTrn::spread_expr(attn, prediction.logs_p);
        SynthesizerTrn::lemma_share(prediction, y_mask, frames, 0, 0, m);
        assert(means.shape == shape && logs.shape == shape) by {
            reveal(Tensor::reshape_expr);
            reveal(Tensor::swap_dims_expr);
            reveal(Tensor::matmul_expr);
        }
        let drawn = Tensor::noise_expr(Noise::Prior, means.shape);
        let widths = logs.unary_expr(UnaryOp::Exp);
        let around = drawn.times_expr(widths);
        let scaled = around.scalar_expr(ScalarOp::Mul, Scalar::Literal(noise_scale));
        assert(drawn.shape == shape && widths.shape == shape && around.shape == shape
            && scaled.shape == shape && z_p.shape == shape) by {
            reveal(Tensor::leaf_expr);
            reveal(Tensor::unary_expr);
            reveal(Tensor::scalar_expr);
            reveal(Tensor::binary_expr);
        }
        assert forall|c: int, y: int| 0 <= c < channels && 0 <= y < frames implies #[trigger]
        crate::signals::at(z_p, 0, c, y, m) == spread_over(
            prediction,
            prediction.m_p,
            y_mask,
            c,
            y,
            m,
        ) + (m.noise)(Noise::Prior, seq![0, c, y]) * (m.exp)(
            spread_over(prediction, prediction.logs_p, y_mask, c, y, m),
        ) * crate::number::double(noise_scale.bits) by {
            broadcast use crate::value::group_elementwise;

            let idx = seq![0, c, y];
            assert(crate::element::within(shape, idx));
            SynthesizerTrn::lemma_spread(prediction, prediction.m_p, y_mask, frames, c, y, m);
            SynthesizerTrn::lemma_spread(prediction, prediction.logs_p, y_mask, frames, c, y, m);
            assert(crate::value::value(drawn, idx, m) == (m.noise)(Noise::Prior, idx)) by {
                reveal(Tensor::leaf_expr);
                crate::element::lemma_unstretched(shape, idx);
            }
        }
        assert forall|idx: Seq<int>| crate::element::within(shape, idx) implies {
            let k = #[trigger] crate::value::value(y_mask, idx, m);
            k == 0real || k == 1real
        } by {
            crate::lengths::lemma_mask_value(prediction.y_lengths, frames, 1, channels, idx, m);
        }
        self.flow.lemma_forward_undoes(z_p, y_mask, None, m);
        assert forall|c: int, y: int|
            0 <= c < channels && 0 <= y < frames && (y as real) < length implies #[trigger]
        crate::signals::at(self.flow.forward_expr(z, y_mask, None, false), 0, c, y, m)
            == crate::signals::at(z_p, 0, c, y, m) by {
            let idx = seq![0, c, y];
            assert(crate::element::within(shape, idx));
            crate::lengths::lemma_mask_value(prediction.y_lengths, frames, 1, channels, idx, m);
            assert(seq![idx[0]] =~= seq![0int]);
        }
        let masked = z.times_expr(y_mask);
        assert(masked.shape == shape && kept.shape == Shape::D3(1, channels, count)) by {
            reveal(Tensor::binary_expr);
            reveal(Tensor::slice_expr);
        }
        assert forall|c: int, y: int| 0 <= c < channels && 0 <= y < count implies #[trigger]
        crate::signals::at(kept, 0, c, y, m) == if (y as real) < length {
            crate::signals::at(z, 0, c, y, m)
        } else {
            0real
        } by {
            let idx = seq![0, c, y];
            assert(crate::element::within(kept.shape, idx) && crate::element::within(shape, idx));
            crate::value::lemma_slice_value(masked, 2, 0, count, idx, m);
            assert(idx.update(2, y + 0) =~= idx);
            crate::value::lemma_binary_value(z, BinaryOp::Mul, y_mask, idx, m);
            crate::lengths::lemma_mask_value(prediction.y_lengths, frames, 1, channels, idx, m);
            assert(seq![idx[0]] =~= seq![0int]);
            let v = crate::signals::at(z, 0, c, y, m);
            assert(v * 1real == v && v * 0real == 0real) by (nonlinear_arith);
        }
        (z_p, z, kept)
    }
}


impl VitsModel {
    /// A voice in real numbers. The encoded phonemes and noise of the scale for durations tell the
    /// logarithms of the durations. A phoneme lasts the exponential of that, times the scale of
    /// lengths and up to the next whole number of frames, and the frames last as long as all
    /// phonemes together, but at least one. The samples are what the decoder makes of the latent
    /// frames, which are drawn with the other scale of noise.
    pub proof fn lemma_value(
        self,
        phoname_ids: Tensor,
        phoname_lengths: Tensor,
        noise_scale: Real,
        length_sacle: Real,
        noise_scale_w: Real,
        max_len: Option<usize>,
        frames: usize,
        m: Reading,
    ) -> (r: (Prediction, Tensor, Tensor, Tensor))
        requires
            self.model_g.wf(),
            m.exponential(),
            ({
                let p = self.model_g.predict_expr(
                    phoname_ids,
                    phoname_lengths,
                    length_sacle,
                    noise_scale_w,
                );
                p.wf(p.w_ceil.at(2), self.model_g.inter_channels()) && 1 <= p.w_ceil.at(2)
                    < usize::MAX
            }),
            frames >= 1,
        ensures
            ({
                let (p, z_p, z, kept) = r;
                let (encoded, means, spreads, x_mask) = self.model_g.enc_p.forward_expr(
                    phoname_ids,
                    phoname_lengths,
                );
                let logw = self.model_g.sdp().forward_expr(encoded, x_mask, None, noise_scale_w);
                &&& p.m_p == means && p.logs_p == spreads && p.x_mask == x_mask
                &&& forall|i: int|
                    0 <= i < p.w_ceil.at(2) ==> #[trigger] crate::signals::at(p.w_ceil, 0, 0, i, m)
                        == crate::value::ceiling(
                        (m.exp)(crate::signals::at(logw, 0, 0, i, m)) * crate::signals::at(
                            x_mask,
                            0,
                            0,
                            i,
                            m,
                        ) * crate::number::double(length_sacle.bits),
                    ) as real
                &&& crate::value::value(p.y_lengths, seq![0], m) == crate::value::greater(
                    crate::value::sum(
                        p.w_ceil.at(2) as nat,
                        |i: int| crate::signals::at(p.w_ceil, 0, 0, i, m),
                    ),
                    1real,
                )
                &&& self.model_g.latent(p, frames, noise_scale, max_len, z_p, z, kept, m)
                &&& self.forward_expr(
                    phoname_ids,
                    phoname_lengths,
                    noise_scale,
                    length_sacle,
                    noise_scale_w,
                    max_len,
                    frames,
                ) == self.model_g.dec.forward_expr(kept, None)
            }),
    {
        let p = self.model_g.predict_expr(
            phoname_ids,
            phoname_lengths,
            length_sacle,
            noise_scale_w,
        );
        let (z_p, z, kept) = self.model_g.lemma_latents(p, frames, noise_scale, max_len, m);
        let (encoded, _, _, x_mask) = self.model_g.enc_p.forward_expr(
            phoname_ids,
            phoname_lengths,
        );
        let logw = self.model_g.sdp().forward_expr(encoded, x_mask, None, noise_scale_w);
        assert forall|i: int| 0 <= i < p.w_ceil.at(2) implies #[trigger] crate::signals::at(
            p.w_ceil,
            0,
            0,
            i,
            m,
        ) == crate::value::ceiling(
            (m.exp)(crate::signals::at(logw, 0, 0, i, m)) * crate::signals::at(x_mask, 0, 0, i, m)
                * crate::number::double(length_sacle.bits),
        ) as real by {
            self.model_g.lemma_duration(
                phoname_ids,
                phoname_lengths,
                length_sacle,
                noise_scale_w,
                i,
                m,
            );
        }
        self.model_g.lemma_frames(phoname_ids, phoname_lengths, length_sacle, noise_scale_w, m);
        let one = |i: int| crate::signals::at(p.w_ceil, 0, 0, i, m);
        let other = |i: int| crate::value::value(p.w_ceil, seq![0, 0, i], m);
        crate::value::lemma_same_sum(p.w_ceil.at(2) as nat, one, other);
        (p, z_p, z, kept)
    }
}

} // verus!

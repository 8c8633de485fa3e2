//! What lies past the length of a row of phonemes has no influence on its encoding.

use crate::encoder::{Encoder, TextEncoder};
use crate::nn::Embedding;
use crate::number::Scalar;
use crate::shape::Shape;
use crate::tensor::{BinaryOp, ScalarOp, Tensor, UnaryOp};
use crate::value::Reading;
use vstd::prelude::*;

verus! {

/// A position is within the mask just where it lies below the length of its row.
pub proof fn lemma_mask_value(
    lengths: Tensor,
    n: usize,
    rows: usize,
    channels: usize,
    idx: Seq<int>,
    m: Reading,
)
    requires
        lengths.shape.rank() == 1,
        lengths.at(0) == rows || lengths.at(0) == 1,
        crate::element::within(Shape::D3(rows, channels, n), idx),
    ensures
        crate::encoder::signal_mask_expr(lengths, n).shape == Shape::D3(lengths.at(0), 1, n),
        crate::value::value(crate::encoder::signal_mask_expr(lengths, n), idx, m)
            == crate::value::truth(
            (idx[2] as real) < crate::value::value(lengths, seq![idx[0]], m),
        ),
{
    let b = lengths.at(0);
    let positions = Tensor::arange_expr(n);
    let across = positions.unsqueeze_expr(0);
    let down = lengths.unsqueeze_expr(1);
    let table = across.binary_expr(BinaryOp::Lower, down);
    let raised = table.unsqueeze_expr(1);
    let row = if b == 1 {
        0
    } else {
        idx[0]
    };
    let at = idx[2];
    let (three, two) = (seq![row, 0, at], seq![row, at]);
    assert(across.shape == Shape::D2(1, n) && down.shape == Shape::D2(b, 1) && table.shape
        == Shape::D2(b, n) && raised.shape == Shape::D3(b, 1, n)) by {
        reveal(Tensor::leaf_expr);
        reveal(Tensor::reshape_expr);
        reveal(Tensor::binary_expr);
    }
    assert(crate::encoder::signal_mask_expr(lengths, n).shape == raised.shape) by {
        reveal(Tensor::unary_expr);
    }
    crate::value::lemma_unary_value(raised, UnaryOp::ToFloat, idx, m);
    assert(crate::element::unstretched(raised.shape, idx) =~= crate::element::unstretched(
        raised.shape,
        three,
    ));
    crate::value::lemma_stretched(raised, idx, three, m);
    assert(crate::element::flat(raised.shape, three) == crate::element::flat(table.shape, two)) by {
        vstd::arithmetic::mul::lemma_mul_basics(row);
    }
    crate::value::lemma_reshape_value(table, raised.shape, three, two, m);
    crate::value::lemma_binary_value(across, BinaryOp::Lower, down, two, m);
    // The positions.
    let first = seq![0, at];
    assert(crate::element::unstretched(across.shape, two) =~= crate::element::unstretched(
        across.shape,
        first,
    ));
    crate::value::lemma_stretched(across, two, first, m);
    assert(crate::element::flat(across.shape, first) == at) by {
        vstd::arithmetic::mul::lemma_mul_basics(n as int);
    }
    assert(positions.shape == Shape::D1(n) && crate::value::value(positions, seq![at], m)
        == at as real) by {
        reveal(Tensor::leaf_expr);
        crate::element::lemma_unstretched(Shape::D1(n), seq![at]);
    }
    crate::value::lemma_reshape_value(positions, across.shape, first, seq![at], m);
    // The lengths.
    let column = seq![row, 0];
    assert(crate::element::unstretched(down.shape, two) =~= crate::element::unstretched(
        down.shape,
        column,
    ));
    crate::value::lemma_stretched(down, two, column, m);
    assert(crate::element::flat(down.shape, column) == row) by {
        vstd::arithmetic::mul::lemma_mul_basics(row);
    }
    crate::value::lemma_reshape_value(lengths, down.shape, column, seq![row], m);
    assert(crate::element::unstretched(lengths.shape, seq![idx[0]]) =~= crate::element::unstretched(
        lengths.shape,
        seq![row],
    ));
    crate::value::lemma_stretched(lengths, seq![idx[0]], seq![row], m);
}

/// The learned vectors of identifiers, scaled, with a dimension for channels before the positions.
pub open spec fn embedded_expr(emb: Embedding, x: Tensor, scale: Scalar) -> Tensor {
    emb.forward_expr(x).scalar_expr(ScalarOp::Mul, scale).swap_dims_expr(1, 2)
}

/// A value of the learned vectors depends on the identifier at its position alone.
pub proof fn lemma_embedded(emb: Embedding, x: Tensor, scale: Scalar, idx: Seq<int>, m: Reading)
    requires
        x.shape.rank() == 2,
    ensures
        ({
            let t = embedded_expr(emb, x, scale);
            let i = crate::element::unstretched(t.shape, idx);
            let s = crate::value::number(scale, m);
            &&& t.shape == Shape::D3(x.at(0), emb.weight.value_expr().at(1), x.at(1))
            &&& crate::value::value(t, idx, m) == if crate::element::within(t.shape, i) {
                crate::value::value(
                    emb.weight.value_expr(),
                    seq![crate::value::value(x, seq![i[0], i[2]], m).floor(), i[1]],
                    m,
                ) * s
            } else {
                0real * s
            }
        }),
{
    let weight = emb.weight.value_expr();
    let plain = x.embedding_expr(weight);
    let scaled = plain.scalar_expr(ScalarOp::Mul, scale);
    let t = scaled.swap_dims_expr(1, 2);
    assert(plain.shape == Shape::D3(x.at(0), x.at(1), weight.at(1)) && scaled.shape == plain.shape
        && t.shape == Shape::D3(x.at(0), weight.at(1), x.at(1))) by {
        reveal(Tensor::embedding_expr);
        reveal(Tensor::scalar_expr);
        reveal(Tensor::swap_dims_expr);
    }
    let i = crate::element::unstretched(t.shape, idx);
    let turned = crate::value::swapped(i, 1, 2);
    assert(crate::value::value(t, idx, m) == crate::value::value(scaled, turned, m)) by {
        reveal(Tensor::swap_dims_expr);
    }
    crate::value::lemma_scalar_value(plain, ScalarOp::Mul, scale, turned, m);
    let place = crate::element::unstretched(plain.shape, turned);
    if idx.len() == 3 {
        assert(place =~= turned);
    }
    assert(crate::element::within(plain.shape, place) == crate::element::within(t.shape, i)) by {
        if crate::element::within(plain.shape, place) {
            assert(0 <= turned[0] < plain.shape.at(0) && 0 <= turned[1] < plain.shape.at(1) && 0
                <= turned[2] < plain.shape.at(2));
        }
        if crate::element::within(t.shape, i) {
            assert(0 <= i[0] < t.shape.at(0) && 0 <= i[1] < t.shape.at(1) && 0 <= i[2]
                < t.shape.at(2));
        }
    }
    reveal(Tensor::embedding_expr);
}

impl TextEncoder {
    /// Whether two batches of phonemes have the same identifiers below the lengths of the rows.
    pub open spec fn same_below(x: Tensor, y: Tensor, lengths: Tensor, m: Reading) -> bool {
        &&& x.shape == y.shape
        &&& forall|row: int, at: int|
            0 <= row < x.at(0) && 0 <= at < x.at(1) && (at as real) < crate::value::value(
                lengths,
                seq![row],
                m,
            ) ==> #[trigger] TextEncoder::same_at(x, y, row, at, m)
    }

    /// Whether two batches of phonemes have the same identifier at a position.
    pub open spec fn same_at(x: Tensor, y: Tensor, row: int, at: int, m: Reading) -> bool {
        crate::value::value(x, seq![row, at], m) == crate::value::value(y, seq![row, at], m)
    }

    /// Identifiers past the length of their row have no influence: batches that agree below the
    /// lengths have the same encoding, means, spreads and mask.
    pub proof fn lemma_past_length(
        self,
        x: Tensor,
        y: Tensor,
        x_lengths: Tensor,
        m: Reading,
    )
        requires
            x.shape.rank() == 2,
            x_lengths.shape.rank() == 1,
            x_lengths.at(0) == x.at(0) || x_lengths.at(0) == 1,
            TextEncoder::same_below(x, y, x_lengths, m),
        ensures
            ({
                let r = self.forward_expr(x, x_lengths);
                let s = self.forward_expr(y, x_lengths);
                &&& crate::alike::alike(r.0, s.0, m, m)
                &&& crate::alike::alike(r.1, s.1, m, m)
                &&& crate::alike::alike(r.2, s.2, m, m)
                &&& r.3 == s.3
            }),
    {
        let scale = Scalar::Count(self.hidden_channels).sqrt_expr();
        let (a, b) = (embedded_expr(self.emb, x, scale), embedded_expr(self.emb, y, scale));
        lemma_embedded(self.emb, x, scale, seq![0, 0, 0], m);
        lemma_embedded(self.emb, y, scale, seq![0, 0, 0], m);
        let mask = crate::encoder::signal_mask_expr(x_lengths, a.at(2));
        assert(mask.shape == Shape::D3(x_lengths.at(0), 1, a.at(2))) by {
            reveal(Tensor::leaf_expr);
            reveal(Tensor::reshape_expr);
            reveal(Tensor::binary_expr);
            reveal(Tensor::unary_expr);
        }
        assert forall|idx: Seq<int>|
            crate::value::value(mask, idx, m) == 0real || #[trigger] crate::value::value(a, idx, m)
                == crate::value::value(b, idx, m) by {
            self.lemma_same_below(x, y, x_lengths, idx, m);
        }
        crate::splined::lemma_masked(a, b, mask, m);
        let (p, q) = (a.times_expr(mask), b.times_expr(mask));
        crate::alike::lemma_alike_itself(mask, m);
        self.encoder.lemma_alike(p, q, mask, mask, m, m);
        let (h, k) = (self.encoder.forward_expr(p, mask), self.encoder.forward_expr(q, mask));
        let (u, v) = (
            self.proj.forward_expr(h).times_expr(mask),
            self.proj.forward_expr(k).times_expr(mask),
        );
        assert(crate::alike::alike(u, v, m, m)) by {
            broadcast use {crate::alike::group_alike, crate::readings::group_layers};

        }
        broadcast use crate::alike::group_alike;

    }

    /// Where the mask is not zero, the learned vectors are the same.
    proof fn lemma_same_below(
        self,
        x: Tensor,
        y: Tensor,
        x_lengths: Tensor,
        idx: Seq<int>,
        m: Reading,
    )
        requires
            x.shape.rank() == 2,
            x_lengths.shape.rank() == 1,
            x_lengths.at(0) == x.at(0) || x_lengths.at(0) == 1,
            TextEncoder::same_below(x, y, x_lengths, m),
        ensures
            ({
                let scale = Scalar::Count(self.hidden_channels).sqrt_expr();
                let a = embedded_expr(self.emb, x, scale);
                let b = embedded_expr(self.emb, y, scale);
                let mask = crate::encoder::signal_mask_expr(x_lengths, a.at(2));
                crate::value::value(mask, idx, m) == 0real || crate::value::value(a, idx, m)
                    == crate::value::value(b, idx, m)
            }),
    {
        let scale = Scalar::Count(self.hidden_channels).sqrt_expr();
        let (a, b) = (embedded_expr(self.emb, x, scale), embedded_expr(self.emb, y, scale));
        let mask = crate::encoder::signal_mask_expr(x_lengths, a.at(2));
        lemma_embedded(self.emb, x, scale, idx, m);
        lemma_embedded(self.emb, y, scale, idx, m);
        let i = crate::element::unstretched(a.shape, idx);
        if crate::element::within(a.shape, i) {
            lemma_mask_value(x_lengths, a.at(2), a.at(0), a.at(1), i, m);
            assert(crate::element::unstretched(mask.shape, i) =~= crate::element::unstretched(
                mask.shape,
                idx,
            ));
            crate::value::lemma_stretched(mask, i, idx, m);
            if crate::value::value(mask, idx, m) != 0real {
                assert(0 <= i[0] < a.shape.at(0) && 0 <= i[2] < a.shape.at(2));
                assert(TextEncoder::same_at(x, y, i[0], i[2], m));
            }
        }
    }

    /// The mask is one below the length of each row and zero from there on.
    pub proof fn lemma_mask(
        self,
        x: Tensor,
        x_lengths: Tensor,
        row: int,
        at: int,
        m: Reading,
    )
        requires
            x.shape.rank() == 2,
            x_lengths.shape == Shape::D1(x.at(0)),
            0 <= row < x.at(0),
            0 <= at < x.at(1),
        ensures
            self.forward_expr(x, x_lengths).3.shape == Shape::D3(x.at(0), 1, x.at(1)),
            crate::value::value(self.forward_expr(x, x_lengths).3, seq![row, 0, at], m)
                == crate::value::truth(
                (at as real) < crate::value::value(x_lengths, seq![row], m),
            ),
    {
        let scale = Scalar::Count(self.hidden_channels).sqrt_expr();
        lemma_embedded(self.emb, x, scale, seq![row, 0, at], m);
        let idx = seq![row, 0, at];
        assert(crate::element::within(Shape::D3(x.at(0), 1, x.at(1)), idx));
        lemma_mask_value(x_lengths, x.at(1), x.at(0), 1, idx, m);
    }

    /// The encoding, the means and the spreads are zero where the mask is zero.
    pub proof fn lemma_masked(self, x: Tensor, x_lengths: Tensor, idx: Seq<int>, m: Reading)
        requires
            x.shape.rank() == 2,
            x_lengths.shape.rank() == 1,
            idx.len() == 3,
            crate::value::value(self.forward_expr(x, x_lengths).3, idx, m) == 0real,
        ensures
            ({
                let (h, means, spreads, _) = self.forward_expr(x, x_lengths);
                &&& crate::value::value(h, idx, m) == 0real
                &&& crate::element::within(means.shape, idx) ==> crate::value::value(means, idx, m)
                    == 0real
                &&& crate::element::within(spreads.shape, idx) ==> crate::value::value(
                    spreads,
                    idx,
                    m,
                ) == 0real
            }),
    {
        let scale = Scalar::Count(self.hidden_channels).sqrt_expr();
        let a = embedded_expr(self.emb, x, scale);
        lemma_embedded(self.emb, x, scale, idx, m);
        let mask = crate::encoder::signal_mask_expr(x_lengths, a.at(2));
        assert(mask.shape == Shape::D3(x_lengths.at(0), 1, a.at(2))) by {
            reveal(Tensor::leaf_expr);
            reveal(Tensor::reshape_expr);
            reveal(Tensor::binary_expr);
            reveal(Tensor::unary_expr);
        }
        let p = a.times_expr(mask);
        let start = p.times_expr(mask);
        assert(p.shape.rank() == 3 && start.shape.rank() == 3) by {
            reveal(Tensor::binary_expr);
        }
        let n = self.encoder.attn_layers.len() as nat;
        let after = self.encoder.after_expr(n, start, mask);
        self.encoder.lemma_rank(n, start, mask);
        lemma_zeroed(after, mask, idx, m);
        let plain = self.proj.forward_expr(self.encoder.forward_expr(p, mask));
        assert(plain.shape.rank() == 3) by {
            reveal(Tensor::conv1d_expr);
        }
        let stats = plain.times_expr(mask);
        let out = self.out_channels;
        let means = stats.slice_expr(1, 0, out);
        let spreads = stats.slice_expr(1, out, (out * 2) as usize);
        if crate::element::within(means.shape, idx) {
            crate::value::lemma_slice_value(stats, 1, 0, out, idx, m);
            assert(idx.update(1, idx[1] + 0) =~= idx);
            lemma_zeroed(plain, mask, idx, m);
        }
        if crate::element::within(spreads.shape, idx) {
            crate::value::lemma_slice_value(stats, 1, out, (out * 2) as usize, idx, m);
            let further = idx.update(1, idx[1] + out);
            crate::inverse::lemma_mask_of_channel(mask, idx, idx[1] + out, m);
            lemma_zeroed(plain, mask, further, m);
        }
    }
}

/// A signal times a mask is zero where the mask is.
proof fn lemma_zeroed(x: Tensor, mask: Tensor, idx: Seq<int>, m: Reading)
    requires
        x.shape.rank() == mask.shape.rank(),
        crate::value::value(mask, idx, m) == 0real,
    ensures
        crate::value::value(x.times_expr(mask), idx, m) == 0real,
{
    crate::value::lemma_binary_value(x, BinaryOp::Mul, mask, idx, m);
    let v = crate::value::value(x, idx, m);
    assert(v * 0real == 0real) by (nonlinear_arith);
}

impl Encoder {
    /// Signals stay signals.
    proof fn lemma_rank(self, n: nat, x: Tensor, x_mask: Tensor)
        requires
            x.shape.rank() == 3,
        ensures
            self.after_expr(n, x, x_mask).shape.rank() == 3,
        decreases n,
    {
        if n > 0 {
            self.lemma_rank((n - 1) as nat, x, x_mask);
            reveal(Tensor::binary_expr);
            reveal(Tensor::swap_dims_expr);
            reveal(Tensor::layer_norm_expr);
        }
    }
}

} // verus!

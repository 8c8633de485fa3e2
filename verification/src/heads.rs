//! What attention gathers, in real numbers.

use crate::attention::{MultiHeadAttention, MASKED_SCORE};
use crate::number::Scalar;
use crate::param::Param;
use crate::shape::Shape;
use crate::tensor::{BinaryOp, ScalarOp, Tensor, UnaryOp};
use crate::value::Reading;
use vstd::prelude::*;

verus! {

/// Rows that follow one another, counted through.
proof fn lemma_rows(p: int, rows: int, columns: int, r: int, c: int)
    ensures
        (p * rows + r) * columns + c == p * (rows * columns) + (r * columns + c),
{
    assert((p * rows + r) * columns == p * (rows * columns) + r * columns) by (nonlinear_arith);
}

/// The last dimension made into rows.
proof fn lemma_split_value(
    x: Tensor,
    rows: usize,
    columns: usize,
    b: int,
    h: int,
    r: int,
    c: int,
    m: Reading,
)
    requires
        x.shape == Shape::D3(x.at(0), x.at(1), x.at(2)),
        x.at(2) == rows * columns,
        0 <= b < x.at(0),
        0 <= h < x.at(1),
        0 <= r < rows,
        0 <= c < columns,
    ensures
        crate::value::value(
            x.reshape_expr(Shape::D4(x.at(0), x.at(1), rows, columns)),
            seq![b, h, r, c],
            m,
        ) == crate::value::value(x, seq![b, h, r * columns + c], m),
{
    let shape = Shape::D4(x.at(0), x.at(1), rows, columns);
    assert(0 <= r * columns + c < rows * columns) by (nonlinear_arith)
        requires
            0 <= r < rows,
            0 <= c < columns,
    ;
    lemma_rows(b * x.at(1) + h, rows as int, columns as int, r, c);
    assert(crate::element::within(shape, seq![b, h, r, c]));
    assert(crate::element::within(x.shape, seq![b, h, r * columns + c]));
    crate::value::lemma_reshape_value(
        x,
        shape,
        seq![b, h, r, c],
        seq![b, h, r * columns + c],
        m,
    );
}

/// The last two dimensions made into one.
proof fn lemma_join_value(x: Tensor, n: usize, b: int, h: int, r: int, c: int, m: Reading)
    requires
        x.shape == Shape::D4(x.at(0), x.at(1), x.at(2), x.at(3)),
        n == x.at(2) * x.at(3),
        0 <= b < x.at(0),
        0 <= h < x.at(1),
        0 <= r < x.at(2),
        0 <= c < x.at(3),
    ensures
        crate::value::value(
            x.reshape_expr(Shape::D3(x.at(0), x.at(1), n)),
            seq![b, h, r * x.at(3) + c],
            m,
        ) == crate::value::value(x, seq![b, h, r, c], m),
{
    let shape = Shape::D3(x.at(0), x.at(1), n);
    let k = r * x.at(3) + c;
    assert(0 <= k < x.at(2) * x.at(3)) by (nonlinear_arith)
        requires
            0 <= r < x.at(2),
            0 <= c < x.at(3),
            k == r * x.at(3) + c,
    ;
    lemma_rows(b * x.at(1) + h, x.at(2) as int, x.at(3) as int, r, c);
    assert(crate::element::within(shape, seq![b, h, k]));
    assert(crate::element::within(x.shape, seq![b, h, r, c]));
    crate::value::lemma_reshape_value(x, shape, seq![b, h, k], seq![b, h, r, c], m);
}

/// The score of a query for a key is its score for the distance between them.
proof fn lemma_by_key(x: Tensor, b: int, h: int, i: int, j: int, m: Reading)
    requires
        x.shape == Shape::D4(x.at(0), x.at(1), x.at(2), (2 * x.at(2) - 1) as usize),
        x.at(2) >= 1,
        x.at(2) * 2 * x.at(2) + x.at(2) <= usize::MAX,
        0 <= b < x.at(0),
        0 <= h < x.at(1),
        0 <= i < x.at(2),
        0 <= j < x.at(2),
    ensures
        MultiHeadAttention::relative_to_absolute_expr(x).shape == Shape::D4(
            x.at(0),
            x.at(1),
            x.at(2),
            x.at(2),
        ),
        crate::value::value(
            MultiHeadAttention::relative_to_absolute_expr(x),
            seq![b, h, i, j],
            m,
        ) == crate::value::value(x, seq![b, h, i, j - i + x.at(2) - 1], m),
{
    let (batch, heads, length) = (x.at(0), x.at(1), x.at(2));
    crate::attention::lemma_relative_sizes(batch, heads, length);
    let wide = (2 * length) as usize;
    let narrow = (2 * length - 1) as usize;
    let all = (length * 2 * length) as usize;
    let padded = x.pad_expr(3, 0, 1);
    let joined = padded.reshape_expr(Shape::D3(batch, heads, all));
    let longer = joined.pad_expr(2, 0, (length - 1) as usize);
    let rows = longer.reshape_expr(Shape::D4(batch, heads, (length + 1) as usize, narrow));
    let cut = rows.slice_expr(2, 0, length);
    let last = cut.slice_expr(3, (length - 1) as usize, narrow);
    let offset = j - i + length - 1;
    let k = i * narrow + (j + length - 1);
    assert(length * wide == all) by (nonlinear_arith)
        requires
            wide == 2 * length,
            all == length * 2 * length,
    ;
    assert((length + 1) * narrow == all + length - 1) by (nonlinear_arith)
        requires
            narrow == 2 * length - 1,
            all == length * 2 * length,
    ;
    assert(k == i * wide + offset) by (nonlinear_arith)
        requires
            k == i * narrow + (j + length - 1),
            narrow == wide - 1,
            offset == j - i + length - 1,
    ;
    assert(i * wide + wide <= length * wide) by (nonlinear_arith)
        requires
            i + 1 <= length,
            wide >= 0,
    ;
    assert(0 <= i * wide) by (nonlinear_arith)
        requires
            i >= 0,
            wide >= 0,
    ;
    assert(padded.shape == Shape::D4(batch, heads, length, wide) && joined.shape == Shape::D3(
        batch,
        heads,
        all,
    ) && longer.shape == Shape::D3(batch, heads, (all + length - 1) as usize) && rows.shape
        == Shape::D4(batch, heads, (length + 1) as usize, narrow) && cut.shape == Shape::D4(
        batch,
        heads,
        length,
        narrow,
    ) && last.shape == Shape::D4(batch, heads, length, length)) by {
        reveal(Tensor::pad_expr);
        reveal(Tensor::reshape_expr);
        reveal(Tensor::slice_expr);
    }
    let (idx, far) = (seq![b, h, i, j], seq![b, h, i, j + length - 1]);
    assert(crate::element::within(last.shape, idx));
    crate::value::lemma_slice_value(cut, 3, (length - 1) as usize, narrow, idx, m);
    assert(idx.update(3, j + (length - 1)) =~= far);
    assert(crate::element::within(cut.shape, far));
    crate::value::lemma_slice_value(rows, 2, 0, length, far, m);
    assert(far.update(2, i + 0) =~= far);
    lemma_split_value(
        longer,
        (length + 1) as usize,
        narrow,
        b,
        h,
        i,
        j + length - 1,
        m,
    );
    let at = seq![b, h, k];
    assert(crate::element::within(longer.shape, at));
    crate::value::lemma_pad_value(joined, 2, 0, (length - 1) as usize, at, m);
    assert(at.update(2, k - 0) =~= at);
    lemma_join_value(padded, all, b, h, i, offset, m);
    let there = seq![b, h, i, offset];
    assert(crate::element::within(padded.shape, there));
    crate::value::lemma_pad_value(x, 3, 0, 1, there, m);
    assert(there.update(3, offset - 0) =~= there);
}

/// The weight of a query for a distance is its weight for the key that far away, and zero where
/// there is no such key.
proof fn lemma_by_distance(x: Tensor, b: int, h: int, i: int, k: int, m: Reading)
    requires
        x.shape == Shape::D4(x.at(0), x.at(1), x.at(2), x.at(2)),
        x.at(2) >= 1,
        x.at(2) * 2 * x.at(2) <= usize::MAX,
        0 <= b < x.at(0),
        0 <= h < x.at(1),
        0 <= i < x.at(2),
        0 <= k < 2 * x.at(2) - 1,
    ensures
        MultiHeadAttention::absolute_to_relative_expr(x).shape == Shape::D4(
            x.at(0),
            x.at(1),
            x.at(2),
            (2 * x.at(2) - 1) as usize,
        ),
        crate::value::value(
            MultiHeadAttention::absolute_to_relative_expr(x),
            seq![b, h, i, k],
            m,
        ) == {
            let key = i + (k - (x.at(2) - 1));
            if 0 <= key < x.at(2) {
                crate::value::value(x, seq![b, h, i, key], m)
            } else {
                0real
            }
        },
{
    let (batch, heads, length) = (x.at(0), x.at(1), x.at(2));
    crate::attention::lemma_relative_sizes(batch, heads, length);
    let wide = (2 * length) as usize;
    let narrow = (2 * length - 1) as usize;
    let all = (length * length + length * (length - 1)) as usize;
    let padded = x.pad_expr(3, 0, (length - 1) as usize);
    let joined = padded.reshape_expr(Shape::D3(batch, heads, all));
    let longer = joined.pad_expr(2, length, 0);
    let rows = longer.reshape_expr(Shape::D4(batch, heads, length, wide));
    let last = rows.slice_expr(3, 1, wide);
    let key = i + (k - (length - 1));
    let n = i * wide + (k + 1);
    assert(length * narrow == all) by (nonlinear_arith)
        requires
            narrow == 2 * length - 1,
            all == length * length + length * (length - 1),
    ;
    assert(length * wide == all + length) by (nonlinear_arith)
        requires
            wide == 2 * length,
            all == length * length + length * (length - 1),
    ;
    assert(n - length == i * narrow + key) by (nonlinear_arith)
        requires
            n == i * wide + (k + 1),
            narrow == wide - 1,
            key == i + (k - (length - 1)),
    ;
    assert(i * wide + wide <= length * wide && i * narrow + narrow <= length * narrow)
        by (nonlinear_arith)
        requires
            i + 1 <= length,
            wide >= 0,
            narrow >= 0,
    ;
    assert(0 <= i * wide && 0 <= i * narrow) by (nonlinear_arith)
        requires
            i >= 0,
            wide >= 0,
            narrow >= 0,
    ;
    assert(padded.shape == Shape::D4(batch, heads, length, narrow) && joined.shape == Shape::D3(
        batch,
        heads,
        all,
    ) && longer.shape == Shape::D3(batch, heads, (all + length) as usize) && rows.shape
        == Shape::D4(batch, heads, length, wide) && last.shape == Shape::D4(
        batch,
        heads,
        length,
        narrow,
    )) by {
        reveal(Tensor::pad_expr);
        reveal(Tensor::reshape_expr);
        reveal(Tensor::slice_expr);
    }
    let idx = seq![b, h, i, k];
    assert(crate::element::within(last.shape, idx));
    crate::value::lemma_slice_value(rows, 3, 1, wide, idx, m);
    assert(idx.update(3, k + 1) =~= seq![b, h, i, k + 1]);
    lemma_split_value(longer, length, wide, b, h, i, k + 1, m);
    let at = seq![b, h, n];
    assert(crate::element::within(longer.shape, at));
    crate::value::lemma_pad_value(joined, 2, length, 0, at, m);
    assert(at.update(2, n - length) =~= seq![b, h, n - length]);
    if n >= length {
        let (r, c) = if key >= 0 {
            (i, key)
        } else {
            (i - 1, key + narrow)
        };
        if key < 0 {
            assert(i >= 1) by {
                if i == 0 {
                    assert(0 * wide == 0);
                }
            }
            assert(i * narrow + key == (i - 1) * narrow + (key + narrow)) by (nonlinear_arith);
        }
        lemma_join_value(padded, all, b, h, r, c, m);
        let there = seq![b, h, r, c];
        assert(crate::element::within(padded.shape, there));
        crate::value::lemma_pad_value(x, 3, 0, (length - 1) as usize, there, m);
        assert(there.update(3, c - 0) =~= there);
    } else {
        assert(i == 0) by {
            if i >= 1 {
                assert(i * wide >= wide) by (nonlinear_arith)
                    requires
                        i >= 1,
                        wide >= 0,
                ;
            }
        }
    }
}

impl MultiHeadAttention {
    /// What was learned of a distance between a key and a query, in a channel of a head; nothing
    /// beyond the window.
    pub open spec fn learned(
        self,
        embeddings: Option<Param>,
        h: int,
        distance: int,
        e: int,
        m: Reading,
    ) -> real {
        match (self.window_size, embeddings) {
            (Some(w), Some(table)) => if -w <= distance <= w {
                (m.param)(
                    table.path,
                    seq![
                        if table.shape.at(0) == 1 {
                            0
                        } else {
                            h
                        },
                        w + distance,
                        e,
                    ],
                )
            } else {
                0real
            },
            _ => 0real,
        }
    }

    proof fn lemma_learned(
        self,
        embeddings: Option<Param>,
        length: usize,
        h: int,
        distance: int,
        e: int,
        m: Reading,
    )
        requires
            self.window_size is Some,
            self.relative_fits(embeddings),
            length >= 1,
            2 * length <= usize::MAX,
            0 <= h < self.n_heads,
            0 <= e < self.k_channels,
            -length < distance < length,
        ensures
            ({
                let all = self.relative_embeddings_expr(embeddings->0.value_expr(), length);
                &&& all.shape == Shape::D3(
                    embeddings->0.shape.at(0),
                    (2 * length - 1) as usize,
                    self.k_channels,
                )
                &&& crate::signals::at(all, h, distance + length - 1, e, m) == self.learned(
                    embeddings,
                    h,
                    distance,
                    e,
                    m,
                )
            }),
    {
        let w = self.window_size->0;
        let table = embeddings->0;
        let x = table.value_expr();
        let rows = table.shape.at(0);
        let pad = if length > w + 1 {
            length - (w + 1)
        } else {
            0
        };
        let start = if w + 1 > length {
            w + 1 - length
        } else {
            0
        };
        let padded = if pad > 0 {
            x.pad_expr(1, pad as usize, pad as usize)
        } else {
            x
        };
        let all = self.relative_embeddings_expr(x, length);
        let at = distance + length - 1;
        assert(x.shape == table.shape && padded.shape == Shape::D3(
            rows,
            (w * 2 + 1 + pad + pad) as usize,
            self.k_channels,
        ) && all.shape == Shape::D3(rows, (2 * length - 1) as usize, self.k_channels)) by {
            reveal(Tensor::leaf_expr);
            reveal(Tensor::pad_expr);
            reveal(Tensor::slice_expr);
        }
        let n = if rows == 1 {
            0
        } else {
            h
        };
        let (idx, there) = (seq![h, at, e], seq![n, at, e]);
        assert(crate::element::unstretched(all.shape, idx) =~= crate::element::unstretched(
            all.shape,
            there,
        ));
        crate::value::lemma_stretched(all, idx, there, m);
        assert(crate::element::within(all.shape, there));
        crate::value::lemma_slice_value(
            padded,
            1,
            start as usize,
            (start + 2 * length - 1) as usize,
            there,
            m,
        );
        let moved = seq![n, at + start, e];
        assert(there.update(1, at + start) =~= moved);
        if pad > 0 {
            assert(crate::element::within(padded.shape, moved));
            crate::value::lemma_pad_value(x, 1, pad as usize, pad as usize, moved, m);
            assert(moved.update(1, at + start - pad) =~= seq![n, at + start - pad, e]);
        }
        if -w <= distance <= w {
            assert(crate::element::within(table.shape, seq![n, w + distance, e]));
            crate::signals::lemma_param_value(table, seq![n, w + distance, e], m);
        }
    }
}


impl MultiHeadAttention {
    proof fn lemma_heads_value(
        self,
        x: Tensor,
        b: int,
        h: int,
        i: int,
        e: int,
        m: Reading,
    )
        requires
            x.shape == Shape::D3(x.at(0), (self.n_heads * self.k_channels) as usize, x.at(2)),
            self.n_heads * self.k_channels <= usize::MAX,
            0 <= b < x.at(0),
            0 <= h < self.n_heads,
            0 <= i < x.at(2),
            0 <= e < self.k_channels,
        ensures
            self.heads_expr(x, x.at(0), x.at(2)).shape == Shape::D4(
                x.at(0),
                self.n_heads,
                x.at(2),
                self.k_channels,
            ),
            0 <= h * self.k_channels + e < x.at(1),
            crate::value::value(self.heads_expr(x, x.at(0), x.at(2)), seq![b, h, i, e], m)
                == crate::signals::at(x, b, h * self.k_channels + e, i, m),
    {
        let shape = Shape::D4(x.at(0), self.n_heads, self.k_channels, x.at(2));
        let c = h * self.k_channels + e;
        assert(0 <= c < self.n_heads * self.k_channels) by (nonlinear_arith)
            requires
                0 <= h < self.n_heads,
                0 <= e < self.k_channels,
                c == h * self.k_channels + e,
        ;
        lemma_rows(b, self.n_heads as int, self.k_channels as int, h, e);
        let split = x.reshape_expr(shape);
        assert(split.shape == shape) by {
            reveal(Tensor::reshape_expr);
        }
        let (idx, back) = (seq![b, h, i, e], seq![b, h, e, i]);
        assert(crate::element::within(shape, back));
        assert(crate::element::within(x.shape, seq![b, c, i]));
        crate::value::lemma_reshape_value(x, shape, back, seq![b, c, i], m);
        assert(crate::element::within(shape.swapped(2, 3), idx));
        crate::signals::lemma_swap_value(split, 2, 3, idx, m);
        assert(crate::value::swapped(idx, 2, 3) =~= back);
    }

    /// The square root of the channels of a head.
    pub open spec fn root(self, m: Reading) -> real {
        (m.sqrt)(self.k_channels as int as real)
    }

    /// How well a key answers a query in a head: the products of their channels, over the root of
    /// the number of channels.
    pub open spec fn answers(
        self,
        q: Tensor,
        k: Tensor,
        b: int,
        h: int,
        i: int,
        j: int,
        m: Reading,
    ) -> real {
        crate::value::sum(
            self.k_channels as nat,
            |e: int|
                crate::signals::at(q, b, h * self.k_channels + e, i, m) / self.root(m)
                    * crate::signals::at(k, b, h * self.k_channels + e, j, m),
        )
    }

    /// How well the distance of a key answers a query in a head.
    pub open spec fn near(
        self,
        q: Tensor,
        b: int,
        h: int,
        i: int,
        j: int,
        m: Reading,
    ) -> real {
        crate::value::sum(
            self.k_channels as nat,
            |e: int|
                crate::signals::at(q, b, h * self.k_channels + e, i, m) / self.root(m)
                    * self.learned(self.emb_rel_k, h, j - i, e, m),
        )
    }

    /// The score of a key for a query in a head.
    pub open spec fn score(
        self,
        q: Tensor,
        k: Tensor,
        b: int,
        h: int,
        i: int,
        j: int,
        m: Reading,
    ) -> real {
        self.answers(q, k, b, h, i, j, m) + (if self.window_size is Some {
            self.near(q, b, h, i, j, m)
        } else {
            0real
        }) + (if self.proximal_bias {
            -(m.log)(1real + crate::value::greater((j - i) as real, -((j - i) as real)))
        } else {
            0real
        })
    }

    /// The score that counts: a fixed one, far below, where the mask or the distance rules the key
    /// out.
    pub open spec fn rated(
        self,
        q: Tensor,
        k: Tensor,
        mask: Option<Tensor>,
        b: int,
        h: int,
        i: int,
        j: int,
        m: Reading,
    ) -> real {
        let far = self.block_length matches Some(n) && !(-n <= j - i <= n);
        match mask {
            Some(mask) => if far || crate::value::value(mask, seq![b, h, i, j], m) == 0real {
                crate::number::double(MASKED_SCORE)
            } else {
                self.score(q, k, b, h, i, j, m)
            },
            None => self.score(q, k, b, h, i, j, m),
        }
    }

    /// How much of a key a query takes: its share in the exponentials of the scores of all keys.
    pub open spec fn weight(
        self,
        q: Tensor,
        k: Tensor,
        mask: Option<Tensor>,
        b: int,
        h: int,
        i: int,
        j: int,
        m: Reading,
    ) -> real {
        (m.exp)(self.rated(q, k, mask, b, h, i, j, m)) / crate::value::sum(
            k.at(2) as nat,
            |a: int| (m.exp)(self.rated(q, k, mask, b, h, i, a, m)),
        )
    }

    /// What a query gathers in a channel of a head: of each key what it takes of its value, and as
    /// much of what was learned of its distance.
    pub open spec fn gathered(
        self,
        q: Tensor,
        k: Tensor,
        v: Tensor,
        mask: Option<Tensor>,
        b: int,
        h: int,
        e: int,
        i: int,
        m: Reading,
    ) -> real {
        crate::value::sum(
            k.at(2) as nat,
            |j: int|
                self.weight(q, k, mask, b, h, i, j, m) * crate::signals::at(
                    v,
                    b,
                    h * self.k_channels + e,
                    j,
                    m,
                ),
        ) + if self.window_size is Some {
            crate::value::sum(
                k.at(2) as nat,
                |j: int|
                    self.weight(q, k, mask, b, h, i, j, m) * self.learned(
                        self.emb_rel_v,
                        h,
                        j - i,
                        e,
                        m,
                    ),
            )
        } else {
            0real
        }
    }

    /// Whether queries, keys and values belong together.
    pub open spec fn attends(self, q: Tensor, k: Tensor) -> bool {
        let channels = (self.n_heads * self.k_channels) as usize;
        &&& self.n_heads * self.k_channels <= usize::MAX
        &&& self.relative_fits(self.emb_rel_k)
        &&& self.relative_fits(self.emb_rel_v)
        &&& q.shape == Shape::D3(k.at(0), channels, q.at(2))
        &&& k.shape == Shape::D3(k.at(0), channels, k.at(2))
        &&& self.takes_lengths(q.at(2), k.at(2))
        &&& self.k_channels >= 1
    }

    proof fn lemma_answers(
        self,
        q: Tensor,
        k: Tensor,
        b: int,
        h: int,
        i: int,
        j: int,
        m: Reading,
    )
        requires
            self.attends(q, k),
            0 <= b < k.at(0),
            0 <= h < self.n_heads,
            0 <= i < q.at(2),
            0 <= j < k.at(2),
        ensures
            ({
                let scaled = self.heads_expr(q, q.at(0), q.at(2)).scalar_expr(
                    ScalarOp::Div,
                    self.scale(),
                );
                let scores = scaled.matmul_expr(
                    self.heads_expr(k, k.at(0), k.at(2)).swap_dims_expr(2, 3),
                );
                &&& scaled.shape == Shape::D4(k.at(0), self.n_heads, q.at(2), self.k_channels)
                &&& scores.shape == Shape::D4(k.at(0), self.n_heads, q.at(2), k.at(2))
                &&& crate::value::value(scores, seq![b, h, i, j], m) == self.answers(
                    q,
                    k,
                    b,
                    h,
                    i,
                    j,
                    m,
                )
            }),
    {
        let query = self.heads_expr(q, q.at(0), q.at(2));
        let key = self.heads_expr(k, k.at(0), k.at(2));
        let scaled = query.scalar_expr(ScalarOp::Div, self.scale());
        let turned = key.swap_dims_expr(2, 3);
        let scores = scaled.matmul_expr(turned);
        self.lemma_heads_value(q, b, h, i, 0, m);
        self.lemma_heads_value(k, b, h, j, 0, m);
        assert(scaled.shape == query.shape && turned.shape == Shape::D4(
            k.at(0),
            self.n_heads,
            self.k_channels,
            k.at(2),
        ) && scores.shape == Shape::D4(k.at(0), self.n_heads, q.at(2), k.at(2))) by {
            reveal(Tensor::scalar_expr);
            reveal(Tensor::swap_dims_expr);
            reveal(Tensor::matmul_expr);
        }
        let idx = seq![b, h, i, j];
        assert(crate::element::within(scores.shape, idx));
        crate::signals::lemma_matmul_value(scaled, turned, idx, m);
        let one = |e: int|
            crate::value::value(scaled, idx.update(3, e), m) * crate::value::value(
                turned,
                idx.update(2, e),
                m,
            );
        let other = |e: int|
            crate::signals::at(q, b, h * self.k_channels + e, i, m) / self.root(m)
                * crate::signals::at(k, b, h * self.k_channels + e, j, m);
        assert forall|e: int| 0 <= e < self.k_channels implies #[trigger] one(e) == other(e) by {
            assert(idx.update(3, e) =~= seq![b, h, i, e]);
            assert(idx.update(2, e) =~= seq![b, h, e, j]);
            self.lemma_heads_value(q, b, h, i, e, m);
            self.lemma_heads_value(k, b, h, j, e, m);
            crate::value::lemma_scalar_value(
                query,
                ScalarOp::Div,
                self.scale(),
                seq![b, h, i, e],
                m,
            );
            assert(crate::value::number(self.scale(), m) == self.root(m)) by {
                reveal_with_fuel(crate::value::number, 2);
            }
            assert(crate::element::within(key.shape.swapped(2, 3), seq![b, h, e, j]));
            crate::signals::lemma_swap_value(key, 2, 3, seq![b, h, e, j], m);
            assert(crate::value::swapped(seq![b, h, e, j], 2, 3) =~= seq![b, h, j, e]);
        }
        crate::value::lemma_same_sum(self.k_channels as nat, one, other);
    }

    proof fn lemma_near(
        self,
        q: Tensor,
        k: Tensor,
        b: int,
        h: int,
        i: int,
        j: int,
        m: Reading,
    )
        requires
            self.attends(q, k),
            self.window_size is Some,
            0 <= b < k.at(0),
            0 <= h < self.n_heads,
            0 <= i < q.at(2),
            0 <= j < k.at(2),
        ensures
            ({
                let scaled = self.heads_expr(q, q.at(0), q.at(2)).scalar_expr(
                    ScalarOp::Div,
                    self.scale(),
                );
                let embeddings = self.relative_embeddings_expr(
                    self.emb_rel_k->0.value_expr(),
                    k.at(2),
                );
                let logits = scaled.matmul_expr(embeddings.unsqueeze_expr(0).swap_dims_expr(2, 3));
                let scores = MultiHeadAttention::relative_to_absolute_expr(logits);
                &&& scores.shape == Shape::D4(k.at(0), self.n_heads, q.at(2), k.at(2))
                &&& crate::value::value(scores, seq![b, h, i, j], m) == self.near(
                    q,
                    b,
                    h,
                    i,
                    j,
                    m,
                )
            }),
    {
        let length = k.at(2);
        let query = self.heads_expr(q, q.at(0), q.at(2));
        let scaled = query.scalar_expr(ScalarOp::Div, self.scale());
        let embeddings = self.relative_embeddings_expr(self.emb_rel_k->0.value_expr(), length);
        let raised = embeddings.unsqueeze_expr(0);
        let turned = raised.swap_dims_expr(2, 3);
        let logits = scaled.matmul_expr(turned);
        crate::attention::lemma_relative_sizes(1, 1, length);
        self.lemma_heads_value(q, b, h, i, 0, m);
        self.lemma_learned(self.emb_rel_k, length, h, j - i, 0, m);
        let rows = self.emb_rel_k->0.shape.at(0);
        let narrow = (2 * length - 1) as usize;
        assert(scaled.shape == query.shape && raised.shape == Shape::D4(
            1,
            rows,
            narrow,
            self.k_channels,
        ) && turned.shape == Shape::D4(1, rows, self.k_channels, narrow) && logits.shape
            == Shape::D4(k.at(0), self.n_heads, length, narrow)) by {
            reveal(Tensor::scalar_expr);
            reveal(Tensor::reshape_expr);
            reveal(Tensor::swap_dims_expr);
            reveal(Tensor::matmul_expr);
        }
        lemma_by_key(logits, b, h, i, j, m);
        let r = j - i + length - 1;
        let idx = seq![b, h, i, r];
        assert(crate::element::within(logits.shape, idx));
        crate::signals::lemma_matmul_value(scaled, turned, idx, m);
        let one = |e: int|
            crate::value::value(scaled, idx.update(3, e), m) * crate::value::value(
                turned,
                idx.update(2, e),
                m,
            );
        let other = |e: int|
            crate::signals::at(q, b, h * self.k_channels + e, i, m) / self.root(m) * self.learned(
                self.emb_rel_k,
                h,
                j - i,
                e,
                m,
            );
        assert forall|e: int| 0 <= e < self.k_channels implies #[trigger] one(e) == other(e) by {
            assert(idx.update(3, e) =~= seq![b, h, i, e]);
            assert(idx.update(2, e) =~= seq![b, h, e, r]);
            self.lemma_heads_value(q, b, h, i, e, m);
            crate::value::lemma_scalar_value(
                query,
                ScalarOp::Div,
                self.scale(),
                seq![b, h, i, e],
                m,
            );
            assert(crate::value::number(self.scale(), m) == self.root(m)) by {
                reveal_with_fuel(crate::value::number, 2);
            }
            lemma_turned(embeddings, b, h, e, r, m);
            self.lemma_learned(self.emb_rel_k, length, h, j - i, e, m);
        }
        crate::value::lemma_same_sum(self.k_channels as nat, one, other);
    }
}

/// A table of vectors for the heads, for every row of a batch.
proof fn lemma_raised(x: Tensor, b: int, h: int, r: int, e: int, m: Reading)
    requires
        x.shape == Shape::D3(x.at(0), x.at(1), x.at(2)),
        0 <= h < x.at(0) || x.at(0) == 1,
        0 <= r < x.at(1),
        0 <= e < x.at(2),
    ensures
        x.unsqueeze_expr(0).shape == Shape::D4(1, x.at(0), x.at(1), x.at(2)),
        crate::value::value(x.unsqueeze_expr(0), seq![b, h, r, e], m) == crate::signals::at(
            x,
            h,
            r,
            e,
            m,
        ),
{
    let raised = x.unsqueeze_expr(0);
    assert(raised.shape == Shape::D4(1, x.at(0), x.at(1), x.at(2))) by {
        reveal(Tensor::reshape_expr);
    }
    let n = if x.at(0) == 1 {
        0
    } else {
        h
    };
    let (four, three) = (seq![0, n, r, e], seq![n, r, e]);
    assert(crate::element::within(raised.shape, four) && crate::element::within(x.shape, three));
    assert(0 * x.at(0) + n == n);
    crate::value::lemma_reshape_value(x, raised.shape, four, three, m);
    assert(crate::element::unstretched(raised.shape, seq![b, h, r, e])
        =~= crate::element::unstretched(raised.shape, four));
    crate::value::lemma_stretched(raised, seq![b, h, r, e], four, m);
    assert(crate::element::unstretched(x.shape, seq![h, r, e]) =~= crate::element::unstretched(
        x.shape,
        three,
    ));
    crate::value::lemma_stretched(x, seq![h, r, e], three, m);
}

proof fn lemma_turned(x: Tensor, b: int, h: int, e: int, r: int, m: Reading)
    requires
        x.shape == Shape::D3(x.at(0), x.at(1), x.at(2)),
        0 <= h < x.at(0) || x.at(0) == 1,
        0 <= r < x.at(1),
        0 <= e < x.at(2),
    ensures
        crate::value::value(
            x.unsqueeze_expr(0).swap_dims_expr(2, 3),
            seq![b, h, e, r],
            m,
        ) == crate::signals::at(x, h, r, e, m),
{
    let raised = x.unsqueeze_expr(0);
    let turned = raised.swap_dims_expr(2, 3);
    lemma_raised(x, b, h, r, e, m);
    let n = if x.at(0) == 1 {
        0
    } else {
        h
    };
    lemma_raised(x, 0, n, r, e, m);
    assert(turned.shape == Shape::D4(1, x.at(0), x.at(2), x.at(1))) by {
        reveal(Tensor::swap_dims_expr);
    }
    let there = seq![0, n, e, r];
    assert(crate::element::unstretched(turned.shape, seq![b, h, e, r])
        =~= crate::element::unstretched(turned.shape, there));
    crate::value::lemma_stretched(turned, seq![b, h, e, r], there, m);
    assert(crate::element::within(raised.shape.swapped(2, 3), there));
    crate::signals::lemma_swap_value(raised, 2, 3, there, m);
    assert(crate::value::swapped(there, 2, 3) =~= seq![0, n, r, e]);
    assert(crate::element::unstretched(x.shape, seq![h, r, e]) =~= crate::element::unstretched(
        x.shape,
        seq![n, r, e],
    ));
    crate::value::lemma_stretched(x, seq![h, r, e], seq![n, r, e], m);
}


/// The bias for near keys: the further away, the lower.
proof fn lemma_proximal(length: usize, b: int, h: int, i: int, j: int, m: Reading)
    requires
        0 <= i < length,
        0 <= j < length,
    ensures
        MultiHeadAttention::attention_bias_proximal_expr(length).shape == Shape::D4(
            1,
            1,
            length,
            length,
        ),
        crate::value::value(
            MultiHeadAttention::attention_bias_proximal_expr(length),
            seq![b, h, i, j],
            m,
        ) == -(m.log)(1real + crate::value::greater((j - i) as real, -((j - i) as real))),
{
    broadcast use crate::value::group_elementwise;

    let r = Tensor::arange_expr(length);
    let across = r.unsqueeze_expr(0);
    let down = r.unsqueeze_expr(1);
    let diff = across.minus_expr(down);
    let falls = diff.unary_expr(UnaryOp::Abs).unary_expr(UnaryOp::ToFloat).unary_expr(
        UnaryOp::Log1p,
    ).unary_expr(UnaryOp::Neg);
    let three = falls.unsqueeze_expr(0);
    let four = three.unsqueeze_expr(0);
    assert(r.shape == Shape::D1(length) && across.shape == Shape::D2(1, length) && down.shape
        == Shape::D2(length, 1) && diff.shape == Shape::D2(length, length) && falls.shape
        == diff.shape && three.shape == Shape::D3(1, length, length) && four.shape == Shape::D4(
        1,
        1,
        length,
        length,
    )) by {
        reveal(Tensor::leaf_expr);
        reveal(Tensor::reshape_expr);
        reveal(Tensor::binary_expr);
        reveal(Tensor::unary_expr);
    }
    let idx = seq![i, j];
    let (left, right) = (seq![0, j], seq![i, 0]);
    assert(crate::element::within(across.shape, left) && crate::element::within(
        r.shape,
        seq![j],
    ) && crate::element::within(down.shape, right) && crate::element::within(r.shape, seq![i]));
    crate::value::lemma_reshape_value(r, across.shape, left, seq![j], m);
    crate::value::lemma_reshape_value(r, down.shape, right, seq![i], m);
    assert(crate::element::unstretched(across.shape, idx) =~= crate::element::unstretched(
        across.shape,
        left,
    ));
    assert(crate::element::unstretched(down.shape, idx) =~= crate::element::unstretched(
        down.shape,
        right,
    ));
    crate::value::lemma_stretched(across, idx, left, m);
    crate::value::lemma_stretched(down, idx, right, m);
    assert(crate::value::value(r, seq![i], m) == i as real && crate::value::value(r, seq![j], m)
        == j as real) by {
        reveal(Tensor::leaf_expr);
        crate::element::lemma_unstretched(r.shape, seq![i]);
        crate::element::lemma_unstretched(r.shape, seq![j]);
    }
    assert(j as real - i as real == (j - i) as real);
    assert(crate::element::within(falls.shape, idx) && crate::element::within(
        three.shape,
        seq![0, i, j],
    ) && crate::element::within(four.shape, seq![0, 0, i, j]));
    assert(0 * length + i == i);
    crate::value::lemma_reshape_value(falls, three.shape, seq![0, i, j], idx, m);
    crate::value::lemma_reshape_value(three, four.shape, seq![0, 0, i, j], seq![0, i, j], m);
    assert(crate::element::unstretched(four.shape, seq![b, h, i, j])
        =~= crate::element::unstretched(four.shape, seq![0, 0, i, j]));
    crate::value::lemma_stretched(four, seq![b, h, i, j], seq![0, 0, i, j], m);
}

/// Which keys are near enough: ones between two diagonals.
proof fn lemma_band(shape: Shape, n: usize, b: int, h: int, i: int, j: int, m: Reading)
    requires
        shape.rank() == 4,
        n <= i64::MAX,
        crate::element::within(shape, seq![b, h, i, j]),
    ensures
        ({
            let band = Tensor::ones_expr(shape).triu_expr((-n) as i64).tril_expr(n as i64);
            &&& band.shape == shape
            &&& crate::value::value(band, seq![b, h, i, j], m) == crate::value::truth(
                -n <= j - i <= n,
            )
        }),
{
    reveal(Tensor::leaf_expr);
    reveal(Tensor::triu_expr);
    reveal(Tensor::tril_expr);
    let idx = seq![b, h, i, j];
    let ones = Tensor::ones_expr(shape);
    let upper = ones.triu_expr((-n) as i64);
    crate::element::lemma_unstretched(shape, idx);
    assert(crate::value::value(ones, idx, m) == 1real);
    assert(crate::value::value(upper, idx, m) == crate::value::truth(j - i >= -n));
}

impl MultiHeadAttention {
    proof fn lemma_score(
        self,
        q: Tensor,
        k: Tensor,
        b: int,
        h: int,
        i: int,
        j: int,
        m: Reading,
    )
        requires
            self.attends(q, k),
            0 <= b < k.at(0),
            0 <= h < self.n_heads,
            0 <= i < q.at(2),
            0 <= j < k.at(2),
        ensures
            ({
                let scores = self.scores_expr(
                    self.heads_expr(q, q.at(0), q.at(2)),
                    self.heads_expr(k, k.at(0), k.at(2)),
                    k.at(2),
                );
                &&& scores.shape == Shape::D4(k.at(0), self.n_heads, q.at(2), k.at(2))
                &&& crate::value::value(scores, seq![b, h, i, j], m) == self.score(
                    q,
                    k,
                    b,
                    h,
                    i,
                    j,
                    m,
                )
            }),
    {
        let shape = Shape::D4(k.at(0), self.n_heads, q.at(2), k.at(2));
        let idx = seq![b, h, i, j];
        let query = self.heads_expr(q, q.at(0), q.at(2));
        let key = self.heads_expr(k, k.at(0), k.at(2));
        let scaled = query.scalar_expr(ScalarOp::Div, self.scale());
        let plain = scaled.matmul_expr(key.swap_dims_expr(2, 3));
        self.lemma_answers(q, k, b, h, i, j, m);
        let with_near = if self.window_size is Some {
            let embeddings = self.relative_embeddings_expr(
                self.emb_rel_k->0.value_expr(),
                k.at(2),
            );
            let logits = scaled.matmul_expr(embeddings.unsqueeze_expr(0).swap_dims_expr(2, 3));
            let near = MultiHeadAttention::relative_to_absolute_expr(logits);
            self.lemma_near(q, k, b, h, i, j, m);
            crate::value::lemma_binary_value(plain, BinaryOp::Add, near, idx, m);
            plain.plus_expr(near)
        } else {
            plain
        };
        assert(with_near.shape == shape) by {
            reveal(Tensor::binary_expr);
        }
        if self.proximal_bias {
            let bias = MultiHeadAttention::attention_bias_proximal_expr(k.at(2));
            lemma_proximal(k.at(2), b, h, i, j, m);
            crate::value::lemma_binary_value(with_near, BinaryOp::Add, bias, idx, m);
            reveal(Tensor::binary_expr);
        }
    }

    proof fn lemma_rated(
        self,
        q: Tensor,
        k: Tensor,
        mask: Option<Tensor>,
        b: int,
        h: int,
        i: int,
        j: int,
        m: Reading,
    )
        requires
            self.attends(q, k),
            self.mask_fits(mask, k.at(0), q.at(2), k.at(2)),
            0 <= b < k.at(0),
            0 <= h < self.n_heads,
            0 <= i < q.at(2),
            0 <= j < k.at(2),
        ensures
            ({
                let scores = self.scores_expr(
                    self.heads_expr(q, q.at(0), q.at(2)),
                    self.heads_expr(k, k.at(0), k.at(2)),
                    k.at(2),
                );
                let rated = self.masked_scores_expr(scores, mask);
                &&& rated.shape == Shape::D4(k.at(0), self.n_heads, q.at(2), k.at(2))
                &&& crate::value::value(rated, seq![b, h, i, j], m) == self.rated(
                    q,
                    k,
                    mask,
                    b,
                    h,
                    i,
                    j,
                    m,
                )
            }),
    {
        let scores = self.scores_expr(
            self.heads_expr(q, q.at(0), q.at(2)),
            self.heads_expr(k, k.at(0), k.at(2)),
            k.at(2),
        );
        let idx = seq![b, h, i, j];
        self.lemma_score(q, k, b, h, i, j, m);
        let never = Scalar::literal_expr(MASKED_SCORE);
        let zero = Scalar::literal_expr(0);
        crate::number::lemma_small_numbers();
        assert(crate::value::number(zero, m) == 0real);
        assert(crate::element::within(scores.shape, idx));
        if let Some(mask) = mask {
            let hidden = mask.scalar_expr(ScalarOp::Equal, zero);
            crate::value::lemma_scalar_value(mask, ScalarOp::Equal, zero, idx, m);
            crate::value::lemma_mask_fill_value(scores, hidden, never, idx, m);
            let filled = scores.mask_fill_expr(hidden, never);
            if let Some(n) = self.block_length {
                let band = Tensor::ones_expr(filled.shape).triu_expr((-n) as i64).tril_expr(
                    n as i64,
                );
                lemma_band(filled.shape, n, b, h, i, j, m);
                crate::value::lemma_scalar_value(band, ScalarOp::Equal, zero, idx, m);
                crate::value::lemma_mask_fill_value(
                    filled,
                    band.scalar_expr(ScalarOp::Equal, zero),
                    never,
                    idx,
                    m,
                );
            }
        }
    }

    proof fn lemma_weight(
        self,
        q: Tensor,
        k: Tensor,
        v: Tensor,
        mask: Option<Tensor>,
        b: int,
        h: int,
        i: int,
        j: int,
        m: Reading,
    )
        requires
            self.attends(q, k),
            self.mask_fits(mask, k.at(0), q.at(2), k.at(2)),
            0 <= b < k.at(0),
            0 <= h < self.n_heads,
            0 <= i < q.at(2),
            0 <= j < k.at(2),
        ensures
            ({
                let p = self.attention_expr(q, k, v, mask).1;
                &&& p.shape == Shape::D4(k.at(0), self.n_heads, q.at(2), k.at(2))
                &&& crate::value::value(p, seq![b, h, i, j], m) == self.weight(
                    q,
                    k,
                    mask,
                    b,
                    h,
                    i,
                    j,
                    m,
                )
            }),
    {
        let scores = self.scores_expr(
            self.heads_expr(q, q.at(0), q.at(2)),
            self.heads_expr(k, k.at(0), k.at(2)),
            k.at(2),
        );
        let rated = self.masked_scores_expr(scores, mask);
        let shares = rated.softmax_expr(3);
        let idx = seq![b, h, i, j];
        self.lemma_rated(q, k, mask, b, h, i, j, m);
        assert(crate::element::within(rated.shape, idx));
        crate::value::lemma_softmax_value(rated, 3, idx, m);
        let one = |a: int| (m.exp)(crate::value::value(rated, idx.update(3, a), m));
        let other = |a: int| (m.exp)(self.rated(q, k, mask, b, h, i, a, m));
        assert forall|a: int| 0 <= a < k.at(2) implies #[trigger] one(a) == other(a) by {
            assert(idx.update(3, a) =~= seq![b, h, i, a]);
            self.lemma_rated(q, k, mask, b, h, i, a, m);
        }
        crate::value::lemma_same_sum(k.at(2) as nat, one, other);
        self.drop.lemma_value(shares, idx, m);
        assert(self.drop.forward_expr(shares).shape == rated.shape) by {
            reveal(Tensor::dropout_expr);
        }
    }
}

/// A sum in which all but some consecutive summands are zero.
proof fn lemma_sum_window(
    n: nat,
    first: nat,
    count: nat,
    row: spec_fn(int) -> real,
    part: spec_fn(int) -> real,
)
    requires
        first + count <= n,
        forall|k: int| 0 <= k < first ==> #[trigger] row(k) == 0real,
        forall|k: int| first + count <= k < n ==> #[trigger] row(k) == 0real,
        forall|k: int| 0 <= k < count ==> row(first + k) == #[trigger] part(k),
    ensures
        crate::value::sum(n, row) == crate::value::sum(count, part),
{
    let rest = (n - first - count) as nat;
    crate::signals::lemma_sum_split((first + count) as nat, rest, row);
    crate::signals::lemma_sum_split(first, count, row);
    let zero = |k: int| 0real;
    let middle = |k: int| row(first + k);
    let end = |k: int| row((first + count) as nat + k);
    crate::value::lemma_same_sum(first, row, zero);
    crate::value::lemma_same_sum(rest, end, zero);
    crate::value::lemma_same_sum(count, middle, part);
    lemma_zero_sum(first);
    lemma_zero_sum(rest);
}

proof fn lemma_zero_sum(n: nat)
    ensures
        crate::value::sum(n, |k: int| 0real) == 0real,
    decreases n,
{
    if n > 0 {
        lemma_zero_sum((n - 1) as nat);
    }
}


impl MultiHeadAttention {
    /// What a query takes of the distances of keys.
    proof fn lemma_near_values(
        self,
        q: Tensor,
        k: Tensor,
        v: Tensor,
        mask: Option<Tensor>,
        b: int,
        h: int,
        e: int,
        i: int,
        m: Reading,
    )
        requires
            self.attends(q, k),
            self.window_size is Some,
            self.mask_fits(mask, k.at(0), q.at(2), k.at(2)),
            0 <= b < k.at(0),
            0 <= h < self.n_heads,
            0 <= e < self.k_channels,
            0 <= i < q.at(2),
        ensures
            ({
                let p = self.attention_expr(q, k, v, mask).1;
                let embeddings = self.relative_embeddings_expr(
                    self.emb_rel_v->0.value_expr(),
                    k.at(2),
                );
                let near = MultiHeadAttention::absolute_to_relative_expr(p).matmul_expr(
                    embeddings.unsqueeze_expr(0),
                );
                &&& near.shape == Shape::D4(k.at(0), self.n_heads, q.at(2), self.k_channels)
                &&& crate::value::value(near, seq![b, h, i, e], m) == crate::value::sum(
                    k.at(2) as nat,
                    |j: int|
                        self.weight(q, k, mask, b, h, i, j, m) * self.learned(
                            self.emb_rel_v,
                            h,
                            j - i,
                            e,
                            m,
                        ),
                )
            }),
    {
        let length = k.at(2);
        let p = self.attention_expr(q, k, v, mask).1;
        let embeddings = self.relative_embeddings_expr(self.emb_rel_v->0.value_expr(), length);
        let raised = embeddings.unsqueeze_expr(0);
        let by_distance = MultiHeadAttention::absolute_to_relative_expr(p);
        let near = by_distance.matmul_expr(raised);
        crate::attention::lemma_relative_sizes(1, 1, length);
        self.lemma_weight(q, k, v, mask, b, h, i, 0, m);
        self.lemma_learned(self.emb_rel_v, length, h, 0, e, m);
        lemma_by_distance(p, b, h, i, 0, m);
        lemma_raised(embeddings, b, h, 0, e, m);
        let narrow = (2 * length - 1) as usize;
        assert(near.shape == Shape::D4(k.at(0), self.n_heads, q.at(2), self.k_channels)) by {
            reveal(Tensor::matmul_expr);
        }
        let idx = seq![b, h, i, e];
        assert(crate::element::within(near.shape, idx));
        crate::signals::lemma_matmul_value(by_distance, raised, idx, m);
        let row = |r: int|
            crate::value::value(by_distance, idx.update(3, r), m) * crate::value::value(
                raised,
                idx.update(2, r),
                m,
            );
        let part = |j: int|
            self.weight(q, k, mask, b, h, i, j, m) * self.learned(
                self.emb_rel_v,
                h,
                j - i,
                e,
                m,
            );
        let first = (length - 1 - i) as nat;
        assert forall|r: int| 0 <= r < narrow implies #[trigger] row(r) == {
            let j = i + (r - (length - 1));
            if 0 <= j < length {
                part(j)
            } else {
                0real
            }
        } by {
            let j = i + (r - (length - 1));
            assert(idx.update(3, r) =~= seq![b, h, i, r]);
            assert(idx.update(2, r) =~= seq![b, h, r, e]);
            lemma_by_distance(p, b, h, i, r, m);
            lemma_raised(embeddings, b, h, r, e, m);
            self.lemma_learned(self.emb_rel_v, length, h, j - i, e, m);
            let a = crate::value::value(raised, seq![b, h, r, e], m);
            assert(0real * a == 0real) by (nonlinear_arith);
            if 0 <= j < length {
                self.lemma_weight(q, k, v, mask, b, h, i, j, m);
            }
        }
        assert forall|j: int| 0 <= j < length implies row(first + j) == #[trigger] part(j) by {
            assert(0 <= first + j < narrow);
        }
        lemma_sum_window(narrow as nat, first, length as nat, row, part);
    }

    proof fn lemma_gathered(
        self,
        q: Tensor,
        k: Tensor,
        v: Tensor,
        mask: Option<Tensor>,
        b: int,
        h: int,
        e: int,
        i: int,
        m: Reading,
    )
        requires
            self.attends(q, k),
            v.shape == k.shape,
            k.at(2) >= 1,
            self.mask_fits(mask, k.at(0), q.at(2), k.at(2)),
            0 <= b < k.at(0),
            0 <= h < self.n_heads,
            0 <= e < self.k_channels,
            0 <= i < q.at(2),
        ensures
            ({
                let out = self.attention_expr(q, k, v, mask).0;
                &&& out.shape == Shape::D3(k.at(0), k.at(1), q.at(2))
                &&& crate::signals::at(out, b, h * self.k_channels + e, i, m) == self.gathered(
                    q,
                    k,
                    v,
                    mask,
                    b,
                    h,
                    e,
                    i,
                    m,
                )
            }),
    {
        let p = self.attention_expr(q, k, v, mask).1;
        let values = self.heads_expr(v, k.at(0), k.at(2));
        let plain = p.matmul_expr(values);
        let shape = Shape::D4(k.at(0), self.n_heads, q.at(2), self.k_channels);
        let idx = seq![b, h, i, e];
        self.lemma_weight(q, k, v, mask, b, h, i, 0, m);
        self.lemma_heads_value(v, b, h, 0, e, m);
        assert(plain.shape == shape) by {
            reveal(Tensor::matmul_expr);
        }
        assert(crate::element::within(shape, idx));
        crate::signals::lemma_matmul_value(p, values, idx, m);
        let one = |j: int|
            crate::value::value(p, idx.update(3, j), m) * crate::value::value(
                values,
                idx.update(2, j),
                m,
            );
        let other = |j: int|
            self.weight(q, k, mask, b, h, i, j, m) * crate::signals::at(
                v,
                b,
                h * self.k_channels + e,
                j,
                m,
            );
        assert forall|j: int| 0 <= j < k.at(2) implies #[trigger] one(j) == other(j) by {
            assert(idx.update(3, j) =~= seq![b, h, i, j]);
            assert(idx.update(2, j) =~= seq![b, h, j, e]);
            self.lemma_weight(q, k, v, mask, b, h, i, j, m);
            self.lemma_heads_value(v, b, h, j, e, m);
        }
        crate::value::lemma_same_sum(k.at(2) as nat, one, other);
        let whole = if self.window_size is Some {
            let embeddings = self.relative_embeddings_expr(
                self.emb_rel_v->0.value_expr(),
                k.at(2),
            );
            let near = MultiHeadAttention::absolute_to_relative_expr(p).matmul_expr(
                embeddings.unsqueeze_expr(0),
            );
            self.lemma_near_values(q, k, v, mask, b, h, e, i, m);
            crate::value::lemma_binary_value(plain, BinaryOp::Add, near, idx, m);
            plain.plus_expr(near)
        } else {
            plain
        };
        assert(whole.shape == shape) by {
            reveal(Tensor::binary_expr);
        }
        let turned = whole.swap_dims_expr(2, 3);
        let back = seq![b, h, e, i];
        assert(crate::element::within(shape.swapped(2, 3), back));
        crate::signals::lemma_swap_value(whole, 2, 3, back, m);
        assert(crate::value::swapped(back, 2, 3) =~= idx);
        let c = h * self.k_channels + e;
        let last = Shape::D3(k.at(0), k.at(1), q.at(2));
        lemma_rows(b, self.n_heads as int, self.k_channels as int, h, e);
        assert(crate::element::within(last, seq![b, c, i]));
        crate::value::lemma_reshape_value(turned, last, seq![b, c, i], back, m);
    }

    /// Attention in real numbers. Queries come of one signal and keys and values of another,
    /// through a convolution each. In every head a query gathers what it takes of the values of
    /// the keys: its shares in the exponentials of their scores, which are the products of the
    /// channels of query and key over the root of the number of channels, with what was learned of
    /// their distances added. The last convolution goes over what all heads gathered.
    pub proof fn lemma_value(
        self,
        x: Tensor,
        c: Tensor,
        attn_mask: Option<Tensor>,
        m: Reading,
    ) -> (r: Tensor)
        requires
            x.shape.rank() == 3,
            c.shape.rank() == 3,
            c.at(0) == x.at(0),
            c.at(1) == x.at(1),
            x.at(2) >= 1,
            c.at(2) >= 1,
            self.k_channels >= 1,
            self.wf(x.at(1), self.out_channels()),
            self.takes_lengths(x.at(2), c.at(2)),
            self.mask_fits(attn_mask, x.at(0), x.at(2), c.at(2)),
        ensures
            ({
                let q = self.conv_q.forward_expr(x);
                let k = self.conv_k.forward_expr(c);
                let v = self.conv_v.forward_expr(c);
                &&& r.shape == x.shape
                &&& forall|b: int, h: int, e: int, i: int|
                    0 <= b < x.at(0) && 0 <= h < self.n_heads && 0 <= e < self.k_channels && 0 <= i
                        < x.at(2) ==> crate::signals::at(r, b, h * self.k_channels + e, i, m)
                        == #[trigger] self.gathered(q, k, v, attn_mask, b, h, e, i, m)
                &&& self.forward_expr(x, c, attn_mask) == self.conv_o.forward_expr(r)
            }),
    {
        let q = self.conv_q.forward_expr(x);
        let k = self.conv_k.forward_expr(c);
        let v = self.conv_v.forward_expr(c);
        self.conv_q.lemma_shape(x);
        self.conv_k.lemma_shape(c);
        self.conv_v.lemma_shape(c);
        let r = self.attention_expr(q, k, v, attn_mask).0;
        assert(r.shape == x.shape) by {
            reveal(Tensor::reshape_expr);
        }
        assert forall|b: int, h: int, e: int, i: int|
            0 <= b < x.at(0) && 0 <= h < self.n_heads && 0 <= e < self.k_channels && 0 <= i < x.at(
                2,
            ) implies crate::signals::at(r, b, h * self.k_channels + e, i, m) == #[trigger]
        self.gathered(q, k, v, attn_mask, b, h, e, i, m) by {
            self.lemma_gathered(q, k, v, attn_mask, b, h, e, i, m);
        }
        r
    }
}

} // verus!

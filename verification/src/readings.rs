//! Layers whose inputs have the same values yield the same values.

use crate::conv::{WNConv1d, WNConvTranspose1d};
use crate::nn::{Conv1d, Dropout, Embedding, LayerNorm};
use crate::tensor::Tensor;
use crate::value::Reading;
use crate::wavenet::{DDSConv, WN};
use vstd::prelude::*;

verus! {

impl Conv1d {
    pub broadcast proof fn lemma_alike(self, x: Tensor, y: Tensor, m: Reading, n: Reading)
        requires
            m.same_but_noise(n),
            crate::alike::alike(x, y, m, n),
        ensures
            #[trigger] crate::alike::alike(self.forward_expr(x), self.forward_expr(y), m, n),
    {
        broadcast use crate::alike::group_alike;

    }
}

impl LayerNorm {
    pub broadcast proof fn lemma_alike(self, x: Tensor, y: Tensor, m: Reading, n: Reading)
        requires
            m.same_but_noise(n),
            crate::alike::alike(x, y, m, n),
        ensures
            #[trigger] crate::alike::alike(
                self.over_channels_expr(x),
                self.over_channels_expr(y),
                m,
                n,
            ),
    {
        broadcast use crate::alike::group_alike;

    }
}

impl Embedding {
    pub broadcast proof fn lemma_alike(self, x: Tensor, y: Tensor, m: Reading, n: Reading)
        requires
            m.same_but_noise(n),
            crate::alike::alike(x, y, m, n),
        ensures
            #[trigger] crate::alike::alike(self.forward_expr(x), self.forward_expr(y), m, n),
    {
        broadcast use crate::alike::group_alike;

    }
}

impl Dropout {
    pub broadcast proof fn lemma_alike(self, x: Tensor, y: Tensor, m: Reading, n: Reading)
        requires
            m.same_but_noise(n),
            crate::alike::alike(x, y, m, n),
        ensures
            #[trigger] crate::alike::alike(self.forward_expr(x), self.forward_expr(y), m, n),
    {
        broadcast use crate::alike::group_alike;

    }
}

impl WNConv1d {
    pub broadcast proof fn lemma_alike(self, x: Tensor, y: Tensor, m: Reading, n: Reading)
        requires
            m.same_but_noise(n),
            crate::alike::alike(x, y, m, n),
        ensures
            #[trigger] crate::alike::alike(self.forward_expr(x), self.forward_expr(y), m, n),
    {
        broadcast use crate::alike::group_alike;

    }
}

impl WNConvTranspose1d {
    pub broadcast proof fn lemma_alike(self, x: Tensor, y: Tensor, m: Reading, n: Reading)
        requires
            m.same_but_noise(n),
            crate::alike::alike(x, y, m, n),
        ensures
            #[trigger] crate::alike::alike(self.forward_expr(x), self.forward_expr(y), m, n),
    {
        broadcast use crate::alike::group_alike;

    }
}

/// How simple layers yield the same values.
pub broadcast group group_layers {
    Conv1d::lemma_alike,
    LayerNorm::lemma_alike,
    Embedding::lemma_alike,
    Dropout::lemma_alike,
    WNConv1d::lemma_alike,
    WNConvTranspose1d::lemma_alike,
}

impl DDSConv {
    proof fn lemma_alike_after(
        self,
        k: nat,
        x: Tensor,
        y: Tensor,
        mask: Tensor,
        mask_: Tensor,
        m: Reading,
        n: Reading,
    )
        requires
            m.same_but_noise(n),
            crate::alike::alike(x, y, m, n),
            crate::alike::alike(mask, mask_, m, n),
        ensures
            crate::alike::alike(self.after_expr(k, x, mask), self.after_expr(k, y, mask_), m, n),
        decreases k,
    {
        broadcast use {crate::alike::group_alike, group_layers};

        if k > 0 {
            self.lemma_alike_after((k - 1) as nat, x, y, mask, mask_, m, n);
        }
    }

    pub broadcast proof fn lemma_alike(
        self,
        x: Tensor,
        y: Tensor,
        mask: Tensor,
        mask_: Tensor,
        g: Option<Tensor>,
        g_: Option<Tensor>,
        m: Reading,
        n: Reading,
    )
        requires
            m.same_but_noise(n),
            crate::alike::alike(x, y, m, n),
            crate::alike::alike(mask, mask_, m, n),
            crate::alike::both_alike(g, g_, m, n),
        ensures
            #[trigger] crate::alike::alike(
                self.forward_expr(x, mask, g),
                self.forward_expr(y, mask_, g_),
                m,
                n,
            ),
    {
        broadcast use crate::alike::group_alike;

        self.lemma_alike_after(
            self.n_layers as nat,
            DDSConv::conditioned_expr(x, g),
            DDSConv::conditioned_expr(y, g_),
            mask,
            mask_,
            m,
            n,
        );
    }
}

impl WN {
    proof fn lemma_alike_res_skip(
        self,
        i: int,
        x: Tensor,
        y: Tensor,
        g: Option<Tensor>,
        g_: Option<Tensor>,
        m: Reading,
        n: Reading,
    )
        requires
            m.same_but_noise(n),
            crate::alike::alike(x, y, m, n),
            crate::alike::both_alike(g, g_, m, n),
        ensures
            crate::alike::alike(
                self.res_skip_expr(i, x, g),
                self.res_skip_expr(i, y, g_),
                m,
                n,
            ),
    {
        broadcast use {crate::alike::group_alike, group_layers};

        let a = self.in_layers@[i].forward_expr(x);
        let b = self.in_layers@[i].forward_expr(y);
        assert(crate::alike::alike(a, b, m, n));
        let offset = i * (2 * self.hidden_channels);
        let (c, d) = match (g, g_) {
            (Some(g), Some(g_)) => (
                g.slice_expr(1, offset as usize, (offset + 2 * self.hidden_channels) as usize),
                g_.slice_expr(1, offset as usize, (offset + 2 * self.hidden_channels) as usize),
            ),
            _ => (Tensor::zeros_expr(a.shape), Tensor::zeros_expr(b.shape)),
        };
        assert(crate::alike::alike(c, d, m, n));
        let p = a.plus_expr(c);
        let q = b.plus_expr(d);
        assert(crate::alike::alike(p, q, m, n));
    }

    proof fn lemma_alike_after(
        self,
        k: nat,
        x: Tensor,
        y: Tensor,
        mask: Tensor,
        mask_: Tensor,
        g: Option<Tensor>,
        g_: Option<Tensor>,
        m: Reading,
        n: Reading,
    )
        requires
            m.same_but_noise(n),
            crate::alike::alike(x, y, m, n),
            crate::alike::alike(mask, mask_, m, n),
            crate::alike::both_alike(g, g_, m, n),
        ensures
            crate::alike::alike(
                self.after_expr(k, x, mask, g).0,
                self.after_expr(k, y, mask_, g_).0,
                m,
                n,
            ),
            crate::alike::alike(
                self.after_expr(k, x, mask, g).1,
                self.after_expr(k, y, mask_, g_).1,
                m,
                n,
            ),
        decreases k,
    {
        broadcast use crate::alike::group_alike;

        if k > 0 {
            self.lemma_alike_after((k - 1) as nat, x, y, mask, mask_, g, g_, m, n);
            let (a, _) = self.after_expr((k - 1) as nat, x, mask, g);
            let (b, _) = self.after_expr((k - 1) as nat, y, mask_, g_);
            self.lemma_alike_res_skip(k - 1, a, b, g, g_, m, n);
        }
    }

    pub broadcast proof fn lemma_alike(
        self,
        x: Tensor,
        y: Tensor,
        mask: Tensor,
        mask_: Tensor,
        g: Option<Tensor>,
        g_: Option<Tensor>,
        m: Reading,
        n: Reading,
    )
        requires
            m.same_but_noise(n),
            crate::alike::alike(x, y, m, n),
            crate::alike::alike(mask, mask_, m, n),
            crate::alike::both_alike(g, g_, m, n),
        ensures
            #[trigger] crate::alike::alike(
                self.forward_expr(x, mask, g),
                self.forward_expr(y, mask_, g_),
                m,
                n,
            ),
    {
        broadcast use {crate::alike::group_alike, group_layers};

        self.lemma_alike_after(
            self.n_layers as nat,
            x,
            y,
            mask,
            mask_,
            self.condition_expr(g),
            self.condition_expr(g_),
            m,
            n,
        );
    }
}

} // verus!

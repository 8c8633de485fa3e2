//! The decoder: upsampling by transposed convolutions with residual blocks in between.

use crate::conv::{
    get_padding, WNConv1d, WNConv1dConfig, WNConvTranspose1d, WNConvTranspose1dConfig,
};
use crate::limits::{product_fits, sum_fits, wide_product};
use crate::nn::{Conv1d, Conv1dConfig, PaddingConfig1d};
use crate::number::{Real, Scalar};
use crate::param::Path;
use crate::shape::Shape;
use crate::tensor::{ScalarOp, Tensor, UnaryOp};
use vstd::prelude::*;

verus! {

/// 0.1
pub const LRELU_SLOPE: u64 = 0x3FB9_9999_9999_999A;

/// 0.01
pub const LAST_SLOPE: u64 = 0x3F84_7AE1_47AE_147B;

/// A dilated convolution, padded to keep the length of an input for an odd number of taps.
pub open spec fn dilated(channels: usize, kernel_size: usize, dilation: usize) -> WNConv1dConfig {
    WNConv1dConfig {
        dilation,
        padding: ((kernel_size * dilation - dilation) / 2) as usize,
        ..WNConv1dConfig::usual(channels, channels, kernel_size)
    }
}

/// Whether [`dilated`] can be computed in machine numbers.
pub open spec fn dilation_fits(kernel_size: usize, dilation: usize) -> bool {
    (kernel_size >= 1 || dilation == 0) && kernel_size * dilation <= usize::MAX
}

fn dilated_conv(channels: usize, kernel_size: usize, dilation: usize, path: &Path) -> (r: WNConv1d)
    requires
        dilation_fits(kernel_size, dilation),
        channels * kernel_size <= usize::MAX,
    ensures
        r == dilated(channels, kernel_size, dilation).built(*path),
        kernel_size % 2 == 1 && dilation >= 1 ==> r.keeps_length(channels, channels),
{
    WNConv1dConfig::new(channels, channels, kernel_size).with_stride(1).with_dilation(
        dilation,
    ).with_padding(get_padding(kernel_size, dilation)).init(path)
}

/// `x` times the mask, where there is one.
pub open spec fn masked_expr(x: Tensor, x_mask: Option<Tensor>) -> Tensor {
    match x_mask {
        Some(mask) => x.times_expr(mask),
        None => x,
    }
}

/// Whether a mask applies to signals of this shape without stretching them.
pub open spec fn mask_fits(x_mask: Option<Tensor>, shape: Shape) -> bool {
    x_mask matches Some(mask) ==> mask.covers(shape)
}

fn masked(x: Tensor, x_mask: &Option<Tensor>) -> (r: Tensor)
    requires
        x.is_signal(),
        mask_fits(*x_mask, x.shape),
    ensures
        r == masked_expr(x, *x_mask),
        r.is_signal(),
        r.shape == x.shape,
{
    match x_mask {
        Some(mask) => x.times(mask.clone()),
        None => x,
    }
}

/// Settings of a [`ResBlock1`].
#[derive(Debug)]
pub struct ResBlock1Config {
    pub channels: usize,
    pub kernel_size: usize,
    pub dilation: Vec<usize>,
}

/// Three pairs of a dilated and a plain convolution, each pair added to its input.
#[derive(Debug)]
pub struct ResBlock1 {
    pub convs1: Vec<WNConv1d>,
    pub convs2: Vec<WNConv1d>,
    pub lrelu_slope: Real,
}

/// The convolutions of dilations `dilation`, at the entries of a list.
pub open spec fn dilated_list(
    channels: usize,
    kernel_size: usize,
    dilation: Seq<usize>,
    path: Path,
) -> Seq<WNConv1d> {
    Seq::new(
        dilation.len(),
        |i: int|
            dilated(channels, kernel_size, dilation[i]).built(path.index_expr(i as usize)),
    )
}

/// Each layer leaves a signal of `channels` channels as it found it in shape.
pub open spec fn keep_shape(convs: Seq<WNConv1d>, channels: usize) -> bool {
    forall|i: int| 0 <= i < convs.len() ==> (#[trigger] convs[i]).keeps_length(channels, channels)
}

/// A signal of this length can be padded for each layer.
pub open spec fn room_for(convs: Seq<WNConv1d>, length: usize) -> bool {
    forall|i: int|
        0 <= i < convs.len() ==> length + (#[trigger] convs[i]).padding + convs[i].padding
            <= usize::MAX
}

impl ResBlock1Config {
    pub fn new(channels: usize, kernel_size: usize, dilation: Vec<usize>) -> (r: ResBlock1Config)
        ensures
            r == (ResBlock1Config { channels, kernel_size, dilation }),
    {
        ResBlock1Config { channels, kernel_size, dilation }
    }

    pub open spec fn valid(self) -> bool {
        &&& self.dilation.len() >= 3
        &&& self.kernel_size >= 1
        &&& self.channels * self.kernel_size <= usize::MAX
        &&& forall|i: int|
            0 <= i < 3 ==> dilation_fits(self.kernel_size, #[trigger] self.dilation@[i])
    }

    /// Whether the layers keep the length of a signal.
    pub open spec fn odd(self) -> bool {
        &&& self.kernel_size % 2 == 1
        &&& forall|i: int| 0 <= i < self.dilation.len() ==> #[trigger] self.dilation@[i] >= 1
    }

    /// Whether `block` is the block with these settings at a path.
    pub open spec fn describes(self, path: Path, block: ResBlock1) -> bool {
        &&& block.convs1@ == dilated_list(
            self.channels,
            self.kernel_size,
            self.dilation@.take(3),
            path.field_expr("convs1"),
        )
        &&& block.convs2@ == dilated_list(
            self.channels,
            self.kernel_size,
            seq![1usize, 1usize, 1usize],
            path.field_expr("convs2"),
        )
        &&& block.lrelu_slope.bits == LRELU_SLOPE
    }

    /// The block with these settings, at a path.
    pub fn init(&self, path: &Path) -> (r: ResBlock1)
        requires
            self.valid(),
        ensures
            self.describes(*path, r),
            self.odd() ==> keep_shape(r.convs1@, self.channels) && keep_shape(
                r.convs2@,
                self.channels,
            ),
    {
        let path1 = path.field("convs1");
        let path2 = path.field("convs2");
        let mut convs1: Vec<WNConv1d> = Vec::new();
        let mut convs2: Vec<WNConv1d> = Vec::new();
        let mut i: usize = 0;
        while i < 3
            invariant
                i <= 3,
                self.valid(),
                path1 == path.field_expr("convs1"),
                path2 == path.field_expr("convs2"),
                convs1@ == dilated_list(
                    self.channels,
                    self.kernel_size,
                    self.dilation@.take(i as int),
                    path1,
                ),
                convs2@ == dilated_list(
                    self.channels,
                    self.kernel_size,
                    seq![1usize, 1usize, 1usize].take(i as int),
                    path2,
                ),
                self.odd() ==> keep_shape(convs1@, self.channels) && keep_shape(
                    convs2@,
                    self.channels,
                ),
            decreases 3 - i,
        {
            convs1.push(
                dilated_conv(self.channels, self.kernel_size, self.dilation[i], &path1.index(i)),
            );
            convs2.push(dilated_conv(self.channels, self.kernel_size, 1, &path2.index(i)));
            i += 1;
        }
        proof {
            assert(seq![1usize, 1usize, 1usize].take(3) =~= seq![1usize, 1usize, 1usize]);
        }
        ResBlock1 { convs1, convs2, lrelu_slope: Real::from_bits(LRELU_SLOPE) }
    }
}

impl ResBlock1 {
    pub open spec fn wf(self, channels: usize) -> bool {
        &&& self.convs1.len() == self.convs2.len()
        &&& keep_shape(self.convs1@, channels)
        &&& keep_shape(self.convs2@, channels)
    }

    pub open spec fn takes_length(self, length: usize) -> bool {
        room_for(self.convs1@, length) && room_for(self.convs2@, length)
    }

    /// A signal after the first `n` pairs of layers.
    pub open spec fn after_expr(self, n: nat, x: Tensor, x_mask: Option<Tensor>) -> Tensor
        decreases n,
    {
        if n == 0 {
            x
        } else {
            let x = self.after_expr((n - 1) as nat, x, x_mask);
            let slope = Scalar::Literal(self.lrelu_slope);
            let xt = masked_expr(x.scalar_expr(ScalarOp::LeakyRelu, slope), x_mask);
            let xt = self.convs1@[n - 1].forward_expr(xt);
            let xt = masked_expr(xt.scalar_expr(ScalarOp::LeakyRelu, slope), x_mask);
            self.convs2@[n - 1].forward_expr(xt).plus_expr(x)
        }
    }

    pub open spec fn forward_expr(self, x: Tensor, x_mask: Option<Tensor>) -> Tensor {
        masked_expr(self.after_expr(self.convs1.len() as nat, x, x_mask), x_mask)
    }

    /// `x` with what each pair of layers makes of it added.
    pub fn forward(&self, x: Tensor, x_mask: Option<Tensor>) -> (r: Tensor)
        requires
            x.is_signal(),
            x.at(2) >= 1,
            self.wf(x.at(1)),
            self.takes_length(x.at(2)),
            mask_fits(x_mask, x.shape),
        ensures
            r == self.forward_expr(x, x_mask),
            r.is_signal(),
            r.shape == x.shape,
    {
        let ghost start = x;
        let mut x = x;
        let mut i: usize = 0;
        while i < self.convs1.len()
            invariant
                i <= self.convs1.len(),
                self.wf(start.at(1)),
                self.takes_length(start.at(2)),
                start.at(2) >= 1,
                mask_fits(x_mask, start.shape),
                x.is_signal(),
                x.shape == start.shape,
                x == self.after_expr(i as nat, start, x_mask),
            decreases self.convs1.len() - i,
        {
            let xt = x.clone().scalar(ScalarOp::LeakyRelu, Scalar::Literal(self.lrelu_slope));
            let xt = self.convs1[i].forward(masked(xt, &x_mask));
            let xt = xt.scalar(ScalarOp::LeakyRelu, Scalar::Literal(self.lrelu_slope));
            let xt = self.convs2[i].forward(masked(xt, &x_mask));
            x = xt.plus(x);
            i += 1;
        }
        masked(x, &x_mask)
    }
}

/// Settings of a [`ResBlock2`].
#[derive(Debug)]
pub struct ResBlock2Config {
    pub channels: usize,
    pub kernel_size: usize,
    pub dilation: Vec<usize>,
}

/// Two dilated convolutions, each added to its input.
#[derive(Debug)]
pub struct ResBlock2 {
    pub convs: Vec<WNConv1d>,
    pub lrelu_slope: Real,
}

impl ResBlock2Config {
    pub fn new(channels: usize, kernel_size: usize, dilation: Vec<usize>) -> (r: ResBlock2Config)
        ensures
            r == (ResBlock2Config { channels, kernel_size, dilation }),
    {
        ResBlock2Config { channels, kernel_size, dilation }
    }

    pub open spec fn valid(self) -> bool {
        &&& self.dilation.len() >= 2
        &&& self.channels * self.kernel_size <= usize::MAX
        &&& forall|i: int|
            0 <= i < 2 ==> dilation_fits(self.kernel_size, #[trigger] self.dilation@[i])
    }

    /// Whether the layers keep the length of a signal.
    pub open spec fn odd(self) -> bool {
        &&& self.kernel_size % 2 == 1
        &&& forall|i: int| 0 <= i < self.dilation.len() ==> #[trigger] self.dilation@[i] >= 1
    }

    /// Whether `block` is the block with these settings at a path.
    pub open spec fn describes(self, path: Path, block: ResBlock2) -> bool {
        &&& block.convs@ == dilated_list(
            self.channels,
            self.kernel_size,
            self.dilation@.take(2),
            path.field_expr("convs"),
        )
        &&& block.lrelu_slope.bits == LRELU_SLOPE
    }

    /// The block with these settings, at a path.
    pub fn init(&self, path: &Path) -> (r: ResBlock2)
        requires
            self.valid(),
        ensures
            self.describes(*path, r),
            self.odd() ==> keep_shape(r.convs@, self.channels),
    {
        let list = path.field("convs");
        let mut convs: Vec<WNConv1d> = Vec::new();
        let mut i: usize = 0;
        while i < 2
            invariant
                i <= 2,
                self.valid(),
                list == path.field_expr("convs"),
                convs@ == dilated_list(
                    self.channels,
                    self.kernel_size,
                    self.dilation@.take(i as int),
                    list,
                ),
                self.odd() ==> keep_shape(convs@, self.channels),
            decreases 2 - i,
        {
            convs.push(
                dilated_conv(self.channels, self.kernel_size, self.dilation[i], &list.index(i)),
            );
            i += 1;
        }
        ResBlock2 { convs, lrelu_slope: Real::from_bits(LRELU_SLOPE) }
    }
}

impl ResBlock2 {
    pub open spec fn wf(self, channels: usize) -> bool {
        keep_shape(self.convs@, channels)
    }

    pub open spec fn takes_length(self, length: usize) -> bool {
        room_for(self.convs@, length)
    }

    /// A signal after the first `n` layers.
    pub open spec fn after_expr(self, n: nat, x: Tensor, x_mask: Option<Tensor>) -> Tensor
        decreases n,
    {
        if n == 0 {
            x
        } else {
            let x = self.after_expr((n - 1) as nat, x, x_mask);
            let xt = masked_expr(
                x.scalar_expr(ScalarOp::LeakyRelu, Scalar::Literal(self.lrelu_slope)),
                x_mask,
            );
            x.plus_expr(self.convs@[n - 1].forward_expr(xt))
        }
    }

    pub open spec fn forward_expr(self, x: Tensor, x_mask: Option<Tensor>) -> Tensor {
        masked_expr(self.after_expr(self.convs.len() as nat, x, x_mask), x_mask)
    }

    /// `x` with what each layer makes of it added.
    pub fn forward(&self, x: Tensor, x_mask: Option<Tensor>) -> (r: Tensor)
        requires
            x.is_signal(),
            x.at(2) >= 1,
            self.wf(x.at(1)),
            self.takes_length(x.at(2)),
            mask_fits(x_mask, x.shape),
        ensures
            r == self.forward_expr(x, x_mask),
            r.is_signal(),
            r.shape == x.shape,
    {
        let ghost start = x;
        let mut x = x;
        let mut i: usize = 0;
        while i < self.convs.len()
            invariant
                i <= self.convs.len(),
                self.wf(start.at(1)),
                self.takes_length(start.at(2)),
                start.at(2) >= 1,
                mask_fits(x_mask, start.shape),
                x.is_signal(),
                x.shape == start.shape,
                x == self.after_expr(i as nat, start, x_mask),
            decreases self.convs.len() - i,
        {
            let xt = x.clone().scalar(ScalarOp::LeakyRelu, Scalar::Literal(self.lrelu_slope));
            let xt = self.convs[i].forward(masked(xt, &x_mask));
            x = x.plus(xt);
            i += 1;
        }
        masked(x, &x_mask)
    }
}

/// Settings of a [`ResBlock`].
#[derive(Debug)]
pub struct ResBlockConfig {
    pub resblock_type: usize,
    pub channels: usize,
    pub kernel_size: usize,
    pub dilation: Vec<usize>,
}

/// A residual block of either kind.
#[derive(Debug)]
pub enum ResBlock {
    ResBlock1(ResBlock1),
    ResBlock2(ResBlock2),
}

/// A list of the same numbers.
pub fn copied(list: &Vec<usize>) -> (r: Vec<usize>)
    ensures
        r@ == list@,
{
    let mut copy: Vec<usize> = Vec::new();
    let mut i: usize = 0;
    while i < list.len()
        invariant
            i <= list.len(),
            copy@ == list@.take(i as int),
        decreases list.len() - i,
    {
        copy.push(list[i]);
        i += 1;
    }
    copy
}

/// Whether a residual block of this type, with these settings, can be made.
pub open spec fn resblock_valid(
    resblock_type: usize,
    channels: usize,
    kernel_size: usize,
    dilation: Seq<usize>,
) -> bool {
    let n: int = if resblock_type == 1 {
        3
    } else {
        2
    };
    &&& dilation.len() >= n
    &&& resblock_type == 1 ==> kernel_size >= 1
    &&& channels * kernel_size <= usize::MAX
    &&& forall|i: int| 0 <= i < n ==> dilation_fits(kernel_size, #[trigger] dilation[i])
}

/// Whether `block` is the residual block of this type with these settings, at a path.
pub open spec fn resblock_describes(
    resblock_type: usize,
    channels: usize,
    kernel_size: usize,
    dilation: Seq<usize>,
    path: Path,
    block: ResBlock,
) -> bool {
    if resblock_type == 1 {
        &&& block matches ResBlock::ResBlock1(b)
        &&& b.convs1@ == dilated_list(
            channels,
            kernel_size,
            dilation.take(3),
            path.field_expr("convs1"),
        )
        &&& b.convs2@ == dilated_list(
            channels,
            kernel_size,
            seq![1usize, 1usize, 1usize],
            path.field_expr("convs2"),
        )
        &&& b.lrelu_slope.bits == LRELU_SLOPE
    } else {
        &&& block matches ResBlock::ResBlock2(b)
        &&& b.convs@ == dilated_list(
            channels,
            kernel_size,
            dilation.take(2),
            path.field_expr("convs"),
        )
        &&& b.lrelu_slope.bits == LRELU_SLOPE
    }
}

/// Whether residual blocks with these settings keep the length of a signal.
pub open spec fn resblock_odd(kernel_size: usize, dilation: Seq<usize>) -> bool {
    &&& kernel_size % 2 == 1
    &&& forall|i: int| 0 <= i < dilation.len() ==> #[trigger] dilation[i] >= 1
}

impl ResBlockConfig {
    pub fn new(
        resblock_type: usize,
        channels: usize,
        kernel_size: usize,
        dilation: Vec<usize>,
    ) -> (r: ResBlockConfig)
        ensures
            r == (ResBlockConfig { resblock_type, channels, kernel_size, dilation }),
    {
        ResBlockConfig { resblock_type, channels, kernel_size, dilation }
    }

    /// The block with these settings, at a path: of the first kind for type one, else of the
    /// second.
    pub fn init(&self, path: &Path) -> (r: ResBlock)
        requires
            resblock_valid(
                self.resblock_type,
                self.channels,
                self.kernel_size,
                self.dilation@,
            ),
        ensures
            resblock_describes(
                self.resblock_type,
                self.channels,
                self.kernel_size,
                self.dilation@,
                *path,
                r,
            ),
            resblock_odd(self.kernel_size, self.dilation@) ==> r.wf(self.channels),
    {
        if self.resblock_type == 1 {
            ResBlock::ResBlock1(
                ResBlock1Config::new(
                    self.channels,
                    self.kernel_size,
                    copied(&self.dilation),
                ).init(path),
            )
        } else {
            ResBlock::ResBlock2(
                ResBlock2Config::new(
                    self.channels,
                    self.kernel_size,
                    copied(&self.dilation),
                ).init(path),
            )
        }
    }
}

impl ResBlock {
    pub open spec fn wf(self, channels: usize) -> bool {
        match self {
            ResBlock::ResBlock1(b) => b.wf(channels),
            ResBlock::ResBlock2(b) => b.wf(channels),
        }
    }

    pub open spec fn takes_length(self, length: usize) -> bool {
        match self {
            ResBlock::ResBlock1(b) => b.takes_length(length),
            ResBlock::ResBlock2(b) => b.takes_length(length),
        }
    }

    pub open spec fn forward_expr(self, x: Tensor, x_mask: Option<Tensor>) -> Tensor {
        match self {
            ResBlock::ResBlock1(b) => b.forward_expr(x, x_mask),
            ResBlock::ResBlock2(b) => b.forward_expr(x, x_mask),
        }
    }

    /// What the block makes of `x`.
    pub fn forward(&self, x: Tensor, x_mask: Option<Tensor>) -> (r: Tensor)
        requires
            x.is_signal(),
            x.at(2) >= 1,
            self.wf(x.at(1)),
            self.takes_length(x.at(2)),
            mask_fits(x_mask, x.shape),
        ensures
            r == self.forward_expr(x, x_mask),
            r.is_signal(),
            r.shape == x.shape,
    {
        match self {
            ResBlock::ResBlock1(b) => b.forward(x, x_mask),
            ResBlock::ResBlock2(b) => b.forward(x, x_mask),
        }
    }
}

/// Settings of a [`Generator`].
#[derive(Debug)]
pub struct GeneratorConfig {
    pub initial_channel: usize,
    pub resblock: usize,
    pub resblock_kernel_sizes: Vec<usize>,
    pub resblock_dilation_sizes: Vec<Vec<usize>>,
    pub upsample_rates: Vec<usize>,
    pub upsample_initial_channel: usize,
    pub upsample_kernel_sizes: Vec<usize>,
    pub gin_channels: usize,
}

/// Turns latent frames into samples.
#[derive(Debug)]
pub struct Generator {
    pub conv_pre: Conv1d,
    pub ups: Vec<WNConvTranspose1d>,
    pub resblocks: Vec<ResBlock>,
    pub conv_post: Conv1d,
    pub cond: Option<Conv1d>,
    pub num_kernels: usize,
    pub lrelu_slope: Real,
}

/// The smaller of two numbers.
pub open spec fn lesser(a: int, b: int) -> int {
    if a < b {
        a
    } else {
        b
    }
}

/// `channels` halved `i` times.
pub open spec fn halved(channels: usize, i: nat) -> usize {
    (channels as nat / vstd::arithmetic::power2::pow2(i)) as usize
}

/// Halving once more.
pub proof fn lemma_halved(channels: usize, i: nat)
    ensures
        halved(channels, 0) == channels,
        halved(channels, i + 1) == halved(channels, i) / 2,
        halved(channels, i) <= channels,
{
    vstd::arithmetic::power2::lemma_pow2_pos(i);
    vstd::arithmetic::power2::lemma_pow2_pos(i + 1);
    vstd::arithmetic::power2::lemma_pow2_unfold(i + 1);
    vstd::arithmetic::power2::lemma2_to64();
    vstd::arithmetic::div_mod::lemma_div_denominator(
        channels as int,
        vstd::arithmetic::power2::pow2(i) as int,
        2,
    );
    vstd::arithmetic::mul::lemma_mul_is_commutative(
        2,
        vstd::arithmetic::power2::pow2(i) as int,
    );
    vstd::arithmetic::div_mod::lemma_div_basics(channels as int);
    vstd::arithmetic::div_mod::lemma_div_is_ordered_by_denominator(
        channels as int,
        1,
        vstd::arithmetic::power2::pow2(i) as int,
    );
    vstd::arithmetic::div_mod::lemma_div_is_ordered_by_denominator(
        channels as int,
        1,
        vstd::arithmetic::power2::pow2(i + 1) as int,
    );
}

impl GeneratorConfig {
    pub fn new(
        initial_channel: usize,
        resblock: usize,
        resblock_kernel_sizes: Vec<usize>,
        resblock_dilation_sizes: Vec<Vec<usize>>,
        upsample_rates: Vec<usize>,
        upsample_initial_channel: usize,
        upsample_kernel_sizes: Vec<usize>,
        gin_channels: usize,
    ) -> (r: GeneratorConfig)
        ensures
            r == (GeneratorConfig {
                initial_channel,
                resblock,
                resblock_kernel_sizes,
                resblock_dilation_sizes,
                upsample_rates,
                upsample_initial_channel,
                upsample_kernel_sizes,
                gin_channels,
            }),
    {
        GeneratorConfig {
            initial_channel,
            resblock,
            resblock_kernel_sizes,
            resblock_dilation_sizes,
            upsample_rates,
            upsample_initial_channel,
            upsample_kernel_sizes,
            gin_channels,
        }
    }

    /// The number of upsampling stages.
    pub open spec fn stages(self) -> nat {
        lesser(
            self.upsample_rates.len() as int,
            self.upsample_kernel_sizes.len() as int,
        ) as nat
    }

    /// The number of residual blocks of a stage.
    pub open spec fn blocks(self) -> nat {
        lesser(
            self.resblock_kernel_sizes.len() as int,
            self.resblock_dilation_sizes.len() as int,
        ) as nat
    }

    /// The upsampling layer of stage `i`.
    pub open spec fn up(self, i: int) -> WNConvTranspose1dConfig {
        let k = self.upsample_kernel_sizes@[i];
        let u = self.upsample_rates@[i];
        WNConvTranspose1dConfig {
            padding: ((k - u) / 2) as usize,
            ..WNConvTranspose1dConfig::usual(
                halved(self.upsample_initial_channel, i as nat),
                halved(self.upsample_initial_channel, (i + 1) as nat),
                k,
                u,
            )
        }
    }

    /// The channels that the last stage leaves; none without a stage.
    pub open spec fn last_channels(self) -> usize {
        if self.stages() == 0 {
            0
        } else {
            halved(self.upsample_initial_channel, self.stages())
        }
    }

    pub open spec fn valid(self) -> bool {
        &&& vstd::arithmetic::power2::pow2(self.stages()) <= usize::MAX
        &&& self.stages() * self.blocks() <= usize::MAX
        &&& self.initial_channel * 7 <= usize::MAX
        &&& self.last_channels() * 7 <= usize::MAX
        &&& forall|i: int|
            0 <= i < self.stages() ==> (#[trigger] self.upsample_rates@[i])
                <= self.upsample_kernel_sizes@[i] && self.up(i).valid()
        &&& forall|i: int, j: int|
            0 <= i < self.stages() && 0 <= j < self.blocks() ==> #[trigger] self.block_valid(i, j)
    }

    /// Whether residual block `j` of stage `i` can be made.
    pub open spec fn block_valid(self, i: int, j: int) -> bool {
        resblock_valid(
            self.resblock,
            halved(self.upsample_initial_channel, (i + 1) as nat),
            self.resblock_kernel_sizes@[j],
            self.resblock_dilation_sizes@[j]@,
        )
    }

    /// Whether residual block `j` of stage `i` stands at its place in a list.
    pub open spec fn describes_block(
        self,
        i: int,
        j: int,
        path: Path,
        list: Seq<ResBlock>,
    ) -> bool {
        resblock_describes(
            self.resblock,
            halved(self.upsample_initial_channel, (i + 1) as nat),
            self.resblock_kernel_sizes@[j],
            self.resblock_dilation_sizes@[j]@,
            path.field_expr("resblocks").index_expr((i * self.blocks() + j) as usize),
            list[i * self.blocks() + j],
        )
    }

    pub open spec fn conv_pre(self) -> Conv1dConfig {
        Conv1dConfig {
            padding: PaddingConfig1d::Explicit(3, 3),
            ..Conv1dConfig::usual(self.initial_channel, self.upsample_initial_channel, 7)
        }
    }

    pub open spec fn conv_post(self) -> Conv1dConfig {
        Conv1dConfig {
            padding: PaddingConfig1d::Explicit(3, 3),
            bias: false,
            ..Conv1dConfig::usual(self.last_channels(), 1, 7)
        }
    }

    /// Whether `generator` is the generator with these settings, at a path.
    pub open spec fn describes(self, path: Path, generator: Generator) -> bool {
        &&& generator.conv_pre == self.conv_pre().built(path.field_expr("conv_pre"))
        &&& generator.ups@ == Seq::new(
            self.stages(),
            |i: int| self.up(i).built(path.field_expr("ups").index_expr(i as usize)),
        )
        &&& generator.resblocks.len() == self.stages() * self.blocks()
        &&& forall|i: int, j: int|
            0 <= i < self.stages() && 0 <= j < self.blocks() ==> #[trigger] self.describes_block(
                i,
                j,
                path,
                generator.resblocks@,
            )
        &&& generator.conv_post == self.conv_post().built(path.field_expr("conv_post"))
        &&& generator.cond == if self.gin_channels != 0 {
            Some(
                Conv1dConfig::usual(
                    self.gin_channels,
                    self.upsample_initial_channel,
                    0,
                ).built(path.field_expr("cond")),
            )
        } else {
            None
        }
        &&& generator.num_kernels == self.resblock_kernel_sizes.len()
        &&& generator.lrelu_slope.bits == LRELU_SLOPE
    }

    /// The generator with these settings, at a path.
    pub fn init(&self, path: &Path) -> (r: Generator)
        requires
            self.valid(),
        ensures
            self.describes(*path, r),
    {
        let ups_path = path.field("ups");
        let resblocks_path = path.field("resblocks");
        let stages: usize = if self.upsample_rates.len() < self.upsample_kernel_sizes.len() {
            self.upsample_rates.len()
        } else {
            self.upsample_kernel_sizes.len()
        };
        let blocks: usize = if self.resblock_kernel_sizes.len()
            < self.resblock_dilation_sizes.len() {
            self.resblock_kernel_sizes.len()
        } else {
            self.resblock_dilation_sizes.len()
        };
        let mut ups: Vec<WNConvTranspose1d> = Vec::new();
        let mut channels: usize = self.upsample_initial_channel;
        let mut i: usize = 0;
        proof {
            lemma_halved(self.upsample_initial_channel, 0);
        }
        while i < stages
            invariant
                i <= stages,
                stages == self.stages(),
                self.valid(),
                ups_path == path.field_expr("ups"),
                channels == halved(self.upsample_initial_channel, i as nat),
                ups@ == Seq::new(
                    i as nat,
                    |i: int| self.up(i).built(path.field_expr("ups").index_expr(i as usize)),
                ),
            decreases stages - i,
        {
            proof {
                lemma_halved(self.upsample_initial_channel, i as nat);
                assert(self.up(i as int).valid());
            }
            let u: usize = self.upsample_rates[i];
            let k: usize = self.upsample_kernel_sizes[i];
            let config = WNConvTranspose1dConfig::new(channels, channels / 2, k, u).with_padding(
                (k - u) / 2,
            );
            ups.push(config.init(&ups_path.index(i)));
            channels = channels / 2;
            i += 1;
        }
        let mut resblocks: Vec<ResBlock> = Vec::new();
        let mut ch: usize = 0;
        let mut wide: usize = self.upsample_initial_channel;
        i = 0;
        proof {
            lemma_halved(self.upsample_initial_channel, 0);
        }
        while i < stages
            invariant
                i <= stages,
                stages == self.stages(),
                blocks == self.blocks(),
                self.valid(),
                resblocks_path == path.field_expr("resblocks"),
                wide == halved(self.upsample_initial_channel, i as nat),
                ch == (if i == 0 {
                    0
                } else {
                    halved(self.upsample_initial_channel, i as nat)
                }),
                resblocks.len() == i * blocks,
                forall|a: int, j: int|
                    0 <= a < i && 0 <= j < blocks ==> #[trigger] self.describes_block(
                        a,
                        j,
                        *path,
                        resblocks@,
                    ),
            decreases stages - i,
        {
            proof {
                lemma_halved(self.upsample_initial_channel, i as nat);
                assert((i + 1) * blocks <= stages * blocks) by (nonlinear_arith)
                    requires
                        i + 1 <= stages,
                ;
                assert((i + 1) * blocks == i * blocks + blocks) by (nonlinear_arith);
            }
            ch = wide / 2;
            wide = ch;
            let ghost done = resblocks@;
            let mut j: usize = 0;
            while j < blocks
                invariant
                    i < stages,
                    j <= blocks,
                    stages == self.stages(),
                    blocks == self.blocks(),
                    self.valid(),
                    resblocks_path == path.field_expr("resblocks"),
                    ch == halved(self.upsample_initial_channel, (i + 1) as nat),
                    i * blocks + blocks <= usize::MAX,
                    done.len() == i * blocks,
                    resblocks.len() == i * blocks + j,
                    forall|m: int| 0 <= m < done.len() ==> resblocks@[m] == done[m],
                    forall|b: int|
                        0 <= b < j ==> #[trigger] self.describes_block(
                            i as int,
                            b,
                            *path,
                            resblocks@,
                        ),
                decreases blocks - j,
            {
                proof {
                    assert(self.block_valid(i as int, j as int));
                }
                let ghost before = resblocks@;
                let place = resblocks_path.index(resblocks.len());
                let config = ResBlockConfig::new(
                    self.resblock,
                    ch,
                    self.resblock_kernel_sizes[j],
                    copied(&self.resblock_dilation_sizes[j]),
                );
                resblocks.push(config.init(&place));
                proof {
                    assert forall|b: int| 0 <= b < j implies #[trigger] self.describes_block(
                        i as int,
                        b,
                        *path,
                        resblocks@,
                    ) by {
                        assert(self.describes_block(i as int, b, *path, before));
                    }
                }
                j += 1;
            }
            proof {
                assert forall|a: int, j: int| 0 <= a < i + 1 && 0 <= j < blocks implies #[trigger]
                self.describes_block(a, j, *path, resblocks@) by {
                    if a < i {
                        assert(self.describes_block(a, j, *path, done));
                        assert(a * blocks + blocks <= i * blocks) by (nonlinear_arith)
                            requires
                                a + 1 <= i,
                        ;
                        assert(0 <= a * blocks) by (nonlinear_arith)
                            requires
                                0 <= a,
                        ;
                        assert(resblocks@[a * blocks + j] == done[a * blocks + j]);
                    }
                }
            }
            i += 1;
        }
        let mut pre = Conv1dConfig::new(self.initial_channel, self.upsample_initial_channel, 7);
        pre.padding = PaddingConfig1d::Explicit(3, 3);
        let mut post = Conv1dConfig::new(ch, 1, 7);
        post.padding = PaddingConfig1d::Explicit(3, 3);
        post.bias = false;
        Generator {
            conv_pre: pre.init(&path.field("conv_pre")),
            ups,
            resblocks,
            conv_post: post.init(&path.field("conv_post")),
            cond: if self.gin_channels != 0 {
                Some(
                    Conv1dConfig::new(self.gin_channels, self.upsample_initial_channel, 0).init(
                        &path.field("cond"),
                    ),
                )
            } else {
                None
            },
            num_kernels: self.resblock_kernel_sizes.len(),
            lrelu_slope: Real::from_bits(LRELU_SLOPE),
        }
    }
}

impl Generator {
    /// Whether stage `i` takes residual block `j` into its mean.
    pub open spec fn uses(self, i: int, j: int) -> bool {
        let index = j - i * self.num_kernels;
        index == 0 || 0 < index < self.num_kernels
    }

    /// The sum of what the residual blocks of stage `i` among the first `n` make of `x`.
    pub open spec fn summed_expr(self, i: int, n: nat, x: Tensor) -> Tensor
        decreases n,
    {
        if n == 0 {
            Tensor::zeros_expr(Shape::D3(1, 1, 1))
        } else {
            let xs = self.summed_expr(i, (n - 1) as nat, x);
            let block = self.resblocks@[n - 1].forward_expr(x, None);
            if n - 1 == i * self.num_kernels {
                block
            } else if self.uses(i, n - 1) {
                xs.plus_expr(block)
            } else {
                xs
            }
        }
    }

    /// A signal after the first `n` stages.
    pub open spec fn after_expr(self, n: nat, x: Tensor) -> Tensor
        decreases n,
    {
        if n == 0 {
            x
        } else {
            let x = self.after_expr((n - 1) as nat, x);
            let x = x.scalar_expr(ScalarOp::LeakyRelu, Scalar::Literal(self.lrelu_slope));
            let x = self.ups@[n - 1].forward_expr(x);
            self.summed_expr(n - 1, self.resblocks.len() as nat, x).scalar_expr(
                ScalarOp::Div,
                Scalar::SingleCount(self.num_kernels),
            )
        }
    }

    /// The signal that enters the first stage.
    pub open spec fn entry_expr(self, x: Tensor, g: Option<Tensor>) -> Tensor {
        let x = self.conv_pre.forward_expr(x);
        match (g, self.cond) {
            (Some(g), Some(cond)) => x.plus_expr(cond.forward_expr(g)),
            _ => x,
        }
    }

    pub open spec fn forward_expr(self, x: Tensor, g: Option<Tensor>) -> Tensor {
        let x = self.after_expr(self.ups.len() as nat, self.entry_expr(x, g));
        let x = x.scalar_expr(ScalarOp::LeakyRelu, Scalar::literal_expr(LAST_SLOPE));
        self.conv_post.forward_expr(x).unary_expr(UnaryOp::Tanh)
    }

    /// The shape of the signal that enters the first stage.
    pub open spec fn entry_shape(self, x: Shape, g: Option<Tensor>) -> Shape {
        let x = self.conv_pre.shape_out(x);
        match (g, self.cond) {
            (Some(g), Some(cond)) => x.joined(cond.shape_out(g.shape)),
            _ => x,
        }
    }

    /// The shape of a signal after the first `n` stages.
    pub open spec fn shape_after(self, n: nat, x: Shape) -> Shape
        decreases n,
    {
        if n == 0 {
            x
        } else if (n - 1) * self.num_kernels < self.resblocks.len() {
            let x = self.shape_after((n - 1) as nat, x);
            let up = self.ups@[n - 1];
            Shape::D3(x.at(0), up.channels_out(), up.length_out(x.at(2)) as usize)
        } else {
            Shape::D3(1, 1, 1)
        }
    }

    /// Whether stage `i` takes what the stages before it make of signals of a shape.
    pub open spec fn stage_takes(self, i: int, entry: Shape) -> bool {
        let x = self.shape_after(i as nat, entry);
        let up = self.ups@[i];
        &&& up.takes_shape(x)
        &&& self.blocks_take(i, up.channels_out(), up.length_out(x.at(2)) as usize)
    }

    /// Whether the residual blocks of stage `i` take signals of a number of channels and a length.
    pub open spec fn blocks_take(self, i: int, channels: usize, length: usize) -> bool {
        forall|j: int|
            0 <= j < self.resblocks.len() && self.uses(i, j) ==> (
            #[trigger] self.resblocks@[j]).wf(channels) && self.resblocks@[j].takes_length(length)
                && length >= 1
    }

    /// Whether signals of a shape can be decoded under a condition.
    pub open spec fn takes_shape(self, x: Shape, g: Option<Tensor>) -> bool {
        let entry = self.entry_shape(x, g);
        &&& self.conv_pre.takes_shape(x)
        &&& match (g, self.cond) {
            (Some(g), Some(cond)) => {
                &&& g.is_signal()
                &&& cond.takes_shape(g.shape)
                &&& self.conv_pre.shape_out(x).joins(cond.shape_out(g.shape))
            },
            _ => true,
        }
        &&& self.ups.len() * self.num_kernels <= isize::MAX
        &&& forall|i: int|
            0 <= i < self.ups.len() ==> #[trigger] self.stage_takes(i, entry)
        &&& self.conv_post.takes_shape(self.shape_after(self.ups.len() as nat, entry))
    }

    /// The shape of what `x` is decoded to.
    pub open spec fn shape_out(self, x: Shape, g: Option<Tensor>) -> Shape {
        self.conv_post.shape_out(
            self.shape_after(self.ups.len() as nat, self.entry_shape(x, g)),
        )
    }

    /// The samples that the frames `x` decode to, under a condition `g`.
    pub fn forward(&self, x: Tensor, g: Option<Tensor>) -> (r: Tensor)
        requires
            x.is_signal(),
            self.takes_shape(x.shape, g),
        ensures
            r == self.forward_expr(x, g),
            r.is_signal(),
            r.shape == self.shape_out(x.shape, g),
    {
        let ghost entry = self.entry_shape(x.shape, g);
        let x = self.conv_pre.forward(x);
        let mut x = match (&g, &self.cond) {
            (Some(g), Some(cond)) => x.plus(cond.forward(g.clone())),
            _ => x,
        };
        let ghost start = x;
        let mut i: usize = 0;
        while i < self.ups.len()
            invariant
                i <= self.ups.len(),
                entry == start.shape,
                self.ups.len() * self.num_kernels <= isize::MAX,
                forall|i: int|
                    0 <= i < self.ups.len() ==> #[trigger] self.stage_takes(i, entry),
                x.is_signal(),
                x.shape == self.shape_after(i as nat, entry),
                x == self.after_expr(i as nat, start),
            decreases self.ups.len() - i,
        {
            proof {
                assert(self.stage_takes(i as int, entry));
                assert(i * self.num_kernels <= self.ups.len() * self.num_kernels)
                    by (nonlinear_arith)
                    requires
                        i <= self.ups.len(),
                ;
            }
            x = x.scalar(ScalarOp::LeakyRelu, Scalar::Literal(self.lrelu_slope));
            x = self.ups[i].forward(x);
            let first: usize = i * self.num_kernels;
            let mut xs = Tensor::zeros(Shape::D3(1, 1, 1));
            let mut j: usize = 0;
            while j < self.resblocks.len()
                invariant
                    j <= self.resblocks.len(),
                    i < self.ups.len(),
                    first == i * self.num_kernels,
                    x.is_signal(),
                    x.shape.at(1) == self.ups@[i as int].channels_out(),
                    forall|j: int|
                        0 <= j < self.resblocks.len() && self.uses(i as int, j) ==> (
                        #[trigger] self.resblocks@[j]).wf(x.at(1)) && self.resblocks@[j].takes_length(
                            x.at(2),
                        ) && x.at(2) >= 1,
                    xs.is_signal(),
                    xs.shape == (if j > first {
                        x.shape
                    } else {
                        Shape::D3(1, 1, 1)
                    }),
                    xs == self.summed_expr(i as int, j as nat, x),
                decreases self.resblocks.len() - j,
            {
                if j == first {
                    xs = self.resblocks[j].forward(x.clone(), None);
                } else if j > first && j - first < self.num_kernels {
                    xs = xs.plus(self.resblocks[j].forward(x.clone(), None));
                }
                j += 1;
            }
            x = xs.scalar(ScalarOp::Div, Scalar::SingleCount(self.num_kernels));
            i += 1;
        }
        let x = x.scalar(ScalarOp::LeakyRelu, Scalar::literal(LAST_SLOPE));
        let x = self.conv_post.forward(x);
        x.unary(UnaryOp::Tanh)
    }
}

/// Whether each layer leaves a signal of `channels` channels as it found it in shape.
fn all_keep_shape(convs: &Vec<WNConv1d>, channels: usize) -> (r: bool)
    ensures
        r == keep_shape(convs@, channels),
{
    let mut i: usize = 0;
    while i < convs.len()
        invariant
            i <= convs.len(),
            forall|a: int|
                0 <= a < i ==> (#[trigger] convs@[a]).keeps_length(channels, channels),
        decreases convs.len() - i,
    {
        if !convs[i].is_length_keeping(channels, channels) {
            assert(!convs@[i as int].keeps_length(channels, channels));
            return false;
        }
        i += 1;
    }
    true
}

/// Whether a signal of this length can be padded for each layer.
fn all_have_room(convs: &Vec<WNConv1d>, length: usize) -> (r: bool)
    ensures
        r == room_for(convs@, length),
{
    let mut i: usize = 0;
    while i < convs.len()
        invariant
            i <= convs.len(),
            forall|a: int|
                0 <= a < i ==> length + (#[trigger] convs@[a]).padding + convs@[a].padding
                    <= usize::MAX,
        decreases convs.len() - i,
    {
        if !sum_fits(length, convs[i].padding, convs[i].padding) {
            assert(!(length + convs@[i as int].padding + convs@[i as int].padding <= usize::MAX));
            return false;
        }
        i += 1;
    }
    true
}

impl ResBlock {
    /// Whether the block takes signals of a number of channels and a length.
    pub fn accepts(&self, channels: usize, length: usize) -> (r: bool)
        ensures
            r == (self.wf(channels) && self.takes_length(length)),
    {
        match self {
            ResBlock::ResBlock1(b) => b.convs1.len() == b.convs2.len() && all_keep_shape(
                &b.convs1,
                channels,
            ) && all_keep_shape(&b.convs2, channels) && all_have_room(&b.convs1, length)
                && all_have_room(&b.convs2, length),
            ResBlock::ResBlock2(b) => all_keep_shape(&b.convs, channels) && all_have_room(
                &b.convs,
                length,
            ),
        }
    }
}

impl Generator {
    /// Whether the residual blocks of stage `i` take signals of a number of channels and a length.
    fn blocks_accept(&self, i: usize, channels: usize, length: usize) -> (r: bool)
        requires
            i * self.num_kernels <= isize::MAX,
        ensures
            r == self.blocks_take(i as int, channels, length),
    {
        let first: usize = i * self.num_kernels;
        let mut j: usize = 0;
        while j < self.resblocks.len()
            invariant
                j <= self.resblocks.len(),
                first == i * self.num_kernels,
                forall|a: int|
                    0 <= a < j && self.uses(i as int, a) ==> (#[trigger] self.resblocks@[a]).wf(
                        channels,
                    ) && self.resblocks@[a].takes_length(length) && length >= 1,
            decreases self.resblocks.len() - j,
        {
            if j == first || j > first && j - first < self.num_kernels {
                assert(self.uses(i as int, j as int));
                if length == 0 || !self.resblocks[j].accepts(channels, length) {
                    proof {
                        let block = self.resblocks@[j as int];
                        assert(!(block.wf(channels) && block.takes_length(length) && length >= 1));
                        assert(!self.blocks_take(i as int, channels, length));
                    }
                    return false;
                }
            }
            j += 1;
        }
        true
    }

    /// Whether signals of a shape can be decoded without a condition.
    pub fn accepts(&self, x: &Shape) -> (r: bool)
        ensures
            r == self.takes_shape(*x, None),
    {
        if !self.conv_pre.accepts(x) || wide_product(self.ups.len(), self.num_kernels)
            > isize::MAX as u128 {
            return false;
        }
        let mut shape = self.conv_pre.make_shape(x);
        let ghost entry = shape;
        let mut i: usize = 0;
        while i < self.ups.len()
            invariant
                i <= self.ups.len(),
                entry == self.entry_shape(*x, None),
                self.ups.len() * self.num_kernels <= isize::MAX,
                shape == self.shape_after(i as nat, entry),
                forall|a: int| 0 <= a < i ==> #[trigger] self.stage_takes(a, entry),
            decreases self.ups.len() - i,
        {
            proof {
                assert(i * self.num_kernels <= self.ups.len() * self.num_kernels)
                    by (nonlinear_arith)
                    requires
                        i <= self.ups.len(),
                ;
            }
            if !self.ups[i].accepts(&shape) {
                assert(!self.stage_takes(i as int, entry));
                return false;
            }
            let length: usize = self.ups[i].make_length(shape.size_at(2));
            let channels: usize = self.ups[i].weight_v.shape.size_at(1);
            if !self.blocks_accept(i, channels, length) {
                assert(!self.stage_takes(i as int, entry));
                return false;
            }
            assert(self.stage_takes(i as int, entry));
            shape = if i * self.num_kernels < self.resblocks.len() {
                Shape::D3(shape.size_at(0), channels, length)
            } else {
                Shape::D3(1, 1, 1)
            };
            i += 1;
        }
        self.conv_post.accepts(&shape)
    }
}

impl GeneratorConfig {
    /// Whether two settings hold the same numbers.
    pub open spec fn same(self, other: GeneratorConfig) -> bool {
        &&& self.initial_channel == other.initial_channel
        &&& self.resblock == other.resblock
        &&& self.resblock_kernel_sizes@ == other.resblock_kernel_sizes@
        &&& self.resblock_dilation_sizes.len() == other.resblock_dilation_sizes.len()
        &&& forall|j: int|
            0 <= j < self.resblock_dilation_sizes.len() ==> (
            #[trigger] self.resblock_dilation_sizes@[j])@ == other.resblock_dilation_sizes@[j]@
        &&& self.upsample_rates@ == other.upsample_rates@
        &&& self.upsample_initial_channel == other.upsample_initial_channel
        &&& self.upsample_kernel_sizes@ == other.upsample_kernel_sizes@
        &&& self.gin_channels == other.gin_channels
    }

    /// Settings that hold the same numbers make the same generator.
    pub proof fn lemma_same(self, other: GeneratorConfig, path: Path, generator: Generator)
        requires
            self.same(other),
        ensures
            self.valid() ==> other.valid(),
            self.describes(path, generator) ==> other.describes(path, generator),
    {
        assert(self.stages() == other.stages() && self.blocks() == other.blocks());
        assert forall|i: int| 0 <= i < self.stages() implies self.up(i) == #[trigger] other.up(
            i,
        ) by {}
        if self.valid() {
            assert forall|i: int, j: int|
                0 <= i < other.stages() && 0 <= j < other.blocks() implies #[trigger]
            other.block_valid(i, j) by {
                assert(self.block_valid(i, j));
                assert(self.resblock_dilation_sizes@[j]@ == other.resblock_dilation_sizes@[j]@);
            }
            assert forall|i: int| 0 <= i < other.stages() implies (
            #[trigger] other.upsample_rates@[i]) <= other.upsample_kernel_sizes@[i] && other.up(
                i,
            ).valid() by {
                assert(self.upsample_rates@[i] <= self.upsample_kernel_sizes@[i]);
                assert(self.up(i) == other.up(i));
            }
        }
        if self.describes(path, generator) {
            assert forall|i: int, j: int|
                0 <= i < other.stages() && 0 <= j < other.blocks() implies #[trigger]
            other.describes_block(i, j, path, generator.resblocks@) by {
                assert(self.describes_block(i, j, path, generator.resblocks@));
                assert(self.resblock_dilation_sizes@[j]@ == other.resblock_dilation_sizes@[j]@);
            }
            assert(generator.ups@ =~= Seq::new(
                other.stages(),
                |i: int| other.up(i).built(path.field_expr("ups").index_expr(i as usize)),
            ));
        }
    }
}

/// Whether a residual block of this type, with these settings, can be made.
fn accepts_resblock(
    resblock_type: usize,
    channels: usize,
    kernel_size: usize,
    dilation: &Vec<usize>,
) -> (r: bool)
    ensures
        r == resblock_valid(resblock_type, channels, kernel_size, dilation@),
{
    let n: usize = if resblock_type == 1 {
        3
    } else {
        2
    };
    if dilation.len() < n || resblock_type == 1 && kernel_size == 0 || !product_fits(
        channels,
        kernel_size,
    ) {
        return false;
    }
    let mut i: usize = 0;
    while i < n
        invariant
            i <= n <= dilation.len(),
            n == (if resblock_type == 1 {
                3
            } else {
                2int
            }),
            forall|a: int| 0 <= a < i ==> dilation_fits(kernel_size, #[trigger] dilation@[a]),
        decreases n - i,
    {
        if kernel_size == 0 && dilation[i] != 0 || !product_fits(kernel_size, dilation[i]) {
            proof {
                let d = dilation@[i as int];
                assert(!dilation_fits(kernel_size, d));
            }
            return false;
        }
        i += 1;
    }
    true
}

impl GeneratorConfig {
    /// Whether stage `i`, with its numbers of channels halved, can be made.
    fn accepts_stage(&self, i: usize, half: usize, blocks: usize) -> (r: bool)
        requires
            i < self.stages(),
            blocks == self.blocks(),
            half == halved(self.upsample_initial_channel, (i + 1) as nat),
        ensures
            r == self.stage_valid(i as int),
    {
        if self.upsample_rates[i] > self.upsample_kernel_sizes[i] || !product_fits(
            half,
            self.upsample_kernel_sizes[i],
        ) {
            return false;
        }
        let mut j: usize = 0;
        while j < blocks
            invariant
                i < self.stages(),
                j <= blocks,
                blocks == self.blocks(),
                half == halved(self.upsample_initial_channel, (i + 1) as nat),
                forall|b: int| 0 <= b < j ==> #[trigger] self.block_valid(i as int, b),
            decreases blocks - j,
        {
            if !accepts_resblock(
                self.resblock,
                half,
                self.resblock_kernel_sizes[j],
                &self.resblock_dilation_sizes[j],
            ) {
                assert(!self.block_valid(i as int, j as int));
                return false;
            }
            assert(self.block_valid(i as int, j as int));
            j += 1;
        }
        true
    }

    /// Whether stage `i` can be made.
    pub open spec fn stage_valid(self, i: int) -> bool {
        &&& self.upsample_rates@[i] <= self.upsample_kernel_sizes@[i]
        &&& self.up(i).valid()
        &&& forall|j: int| 0 <= j < self.blocks() ==> #[trigger] self.block_valid(i, j)
    }

    /// Whether the generator can be made.
    pub fn accepts(&self) -> (r: bool)
        ensures
            r == self.valid(),
    {
        let stages: usize = if self.upsample_rates.len() < self.upsample_kernel_sizes.len() {
            self.upsample_rates.len()
        } else {
            self.upsample_kernel_sizes.len()
        };
        let blocks: usize = if self.resblock_kernel_sizes.len()
            < self.resblock_dilation_sizes.len() {
            self.resblock_kernel_sizes.len()
        } else {
            self.resblock_dilation_sizes.len()
        };
        if !product_fits(stages, blocks) || !product_fits(self.initial_channel, 7) {
            return false;
        }
        let mut doubled: usize = 1;
        let mut last: usize = 0;
        let mut wide: usize = self.upsample_initial_channel;
        let mut i: usize = 0;
        proof {
            vstd::arithmetic::power2::lemma2_to64();
            lemma_halved(self.upsample_initial_channel, 0);
        }
        while i < stages
            invariant
                i <= stages,
                stages == self.stages(),
                blocks == self.blocks(),
                doubled == vstd::arithmetic::power2::pow2(i as nat),
                wide == halved(self.upsample_initial_channel, i as nat),
                last == (if i == 0 {
                    0
                } else {
                    halved(self.upsample_initial_channel, i as nat)
                }),
                forall|a: int| 0 <= a < i ==> #[trigger] self.stage_valid(a),
            decreases stages - i,
        {
            proof {
                vstd::arithmetic::power2::lemma_pow2_unfold((i + 1) as nat);
                lemma_halved(self.upsample_initial_channel, i as nat);
                if i + 1 < stages {
                    vstd::arithmetic::power2::lemma_pow2_strictly_increases(
                        (i + 1) as nat,
                        stages as nat,
                    );
                }
            }
            doubled = match doubled.checked_mul(2) {
                Some(next) => next,
                None => return false,
            };
            last = wide / 2;
            if !self.accepts_stage(i, last, blocks) {
                proof {
                    assert(!self.stage_valid(i as int));
                    assert(!self.valid()) by {
                        if self.valid() {
                            let rate = self.upsample_rates@[i as int];
                            assert forall|j: int| 0 <= j < self.blocks() implies #[trigger]
                            self.block_valid(i as int, j) by {}
                        }
                    }
                }
                return false;
            }
            wide = last;
            i += 1;
        }
        proof {
            assert forall|i: int| 0 <= i < self.stages() implies (
            #[trigger] self.upsample_rates@[i]) <= self.upsample_kernel_sizes@[i] && self.up(
                i,
            ).valid() by {
                assert(self.stage_valid(i));
            }
            assert forall|i: int, j: int|
                0 <= i < self.stages() && 0 <= j < self.blocks() implies #[trigger] self.block_valid(
                i,
                j,
            ) by {
                assert(self.stage_valid(i));
            }
        }
        product_fits(last, 7)
    }
}

/// A product of rates, once it is not zero, is not less than that of fewer of them.
pub proof fn lemma_rate_product(rates: Seq<usize>, n: nat, m: nat)
    requires
        n <= m,
    ensures
        rate_product(rates, m) == 0 || rate_product(rates, n) <= rate_product(rates, m),
    decreases m - n,
{
    if n < m {
        lemma_rate_product(rates, n, (m - 1) as nat);
        let before = rate_product(rates, (m - 1) as nat);
        let rate = rates[m - 1] as nat;
        assert(before * rate == 0 || before <= before * rate) by (nonlinear_arith);
        assert(before == 0 ==> before * rate == 0) by (nonlinear_arith);
    }
}

/// The product of the rates, where it is a machine number.
pub fn multiplied(rates: &Vec<usize>) -> (r: Option<usize>)
    ensures
        r matches Some(product) ==> product == rate_product(rates@, rates.len() as nat),
        r is None ==> rate_product(rates@, rates.len() as nat) == 0 || rate_product(
            rates@,
            rates.len() as nat,
        ) > usize::MAX,
{
    let mut product: usize = 1;
    let mut i: usize = 0;
    while i < rates.len()
        invariant
            i <= rates.len(),
            product == rate_product(rates@, i as nat),
        decreases rates.len() - i,
    {
        product = match product.checked_mul(rates[i]) {
            Some(next) => next,
            None => {
                proof {
                    assert(rate_product(rates@, (i + 1) as nat) > usize::MAX);
                    lemma_rate_product(rates@, (i + 1) as nat, rates.len() as nat);
                }
                return None;
            },
        };
        i += 1;
    }
    Some(product)
}

/// The product of the first `n` rates.
pub open spec fn rate_product(rates: Seq<usize>, n: nat) -> nat
    decreases n,
{
    if n == 0 {
        1
    } else {
        rate_product(rates, (n - 1) as nat) * rates[n - 1] as nat
    }
}

// The length of what is decoded.

/// A dilated convolution of an odd number of taps keeps the length of a signal.
proof fn lemma_dilated_keeps_length(
    channels: usize,
    kernel_size: usize,
    dilation: usize,
    path: Path,
)
    requires
        dilation_fits(kernel_size, dilation),
        kernel_size % 2 == 1,
        dilation >= 1,
    ensures
        dilated(channels, kernel_size, dilation).built(path).keeps_length(channels, channels),
        2 * dilated(channels, kernel_size, dilation).built(path).padding <= kernel_size * dilation,
{
    crate::conv::lemma_reach(kernel_size, dilation);
    vstd::arithmetic::div_mod::lemma_div_basics(channels as int);
}

/// Whether signals of a length can be padded for residual blocks with these settings.
pub open spec fn resblock_room(
    resblock_type: usize,
    kernel_size: usize,
    dilation: Seq<usize>,
    length: int,
) -> bool {
    let n: int = if resblock_type == 1 {
        3
    } else {
        2
    };
    &&& length + kernel_size <= usize::MAX
    &&& forall|i: int|
        0 <= i < n ==> length + kernel_size * (#[trigger] dilation[i]) <= usize::MAX
}

/// A residual block with filters of an odd number of taps leaves the shape of a signal.
proof fn lemma_resblock_keeps_shape(
    resblock_type: usize,
    channels: usize,
    kernel_size: usize,
    dilation: Seq<usize>,
    path: Path,
    block: ResBlock,
    length: usize,
)
    requires
        resblock_valid(resblock_type, channels, kernel_size, dilation),
        resblock_odd(kernel_size, dilation),
        resblock_describes(resblock_type, channels, kernel_size, dilation, path, block),
        resblock_room(resblock_type, kernel_size, dilation, length as int),
    ensures
        block.wf(channels),
        block.takes_length(length),
{
    match block {
        ResBlock::ResBlock1(b) => {
            assert forall|i: int| 0 <= i < 3 implies (
            #[trigger] b.convs1@[i]).keeps_length(channels, channels) && length
                + b.convs1@[i].padding + b.convs1@[i].padding <= usize::MAX by {
                assert(dilation.take(3)[i] == dilation[i]);
                lemma_dilated_keeps_length(
                    channels,
                    kernel_size,
                    dilation[i],
                    path.field_expr("convs1").index_expr(i as usize),
                );
            }
            assert forall|i: int| 0 <= i < 3 implies (
            #[trigger] b.convs2@[i]).keeps_length(channels, channels) && length
                + b.convs2@[i].padding + b.convs2@[i].padding <= usize::MAX by {
                lemma_dilated_keeps_length(
                    channels,
                    kernel_size,
                    1,
                    path.field_expr("convs2").index_expr(i as usize),
                );
            }
        },
        ResBlock::ResBlock2(b) => {
            assert forall|i: int| 0 <= i < 2 implies (
            #[trigger] b.convs@[i]).keeps_length(channels, channels) && length
                + b.convs@[i].padding + b.convs@[i].padding <= usize::MAX by {
                assert(dilation.take(2)[i] == dilation[i]);
                lemma_dilated_keeps_length(
                    channels,
                    kernel_size,
                    dilation[i],
                    path.field_expr("convs").index_expr(i as usize),
                );
            }
        },
    }
}

impl GeneratorConfig {
    /// The factor by which the first `n` stages lengthen a signal.
    pub open spec fn upsampling(self, n: nat) -> nat {
        rate_product(self.upsample_rates@, n)
    }

    /// Every stage lengthens by exactly its rate: its filters reach beyond the rate by an even
    /// number, and its residual blocks leave the length alone.
    pub open spec fn upsamples_evenly(self) -> bool {
        &&& self.stages() >= 1
        &&& self.resblock_kernel_sizes.len() >= 1
        &&& self.resblock_kernel_sizes.len() == self.resblock_dilation_sizes.len()
        &&& forall|i: int|
            0 <= i < self.stages() ==> (#[trigger] self.upsample_rates@[i]) >= 1 && (
            self.upsample_kernel_sizes@[i] - self.upsample_rates@[i]) % 2 == 0
        &&& forall|j: int|
            0 <= j < self.blocks() ==> #[trigger] resblock_odd(
                self.resblock_kernel_sizes@[j],
                self.resblock_dilation_sizes@[j]@,
            )
    }

    /// Whether stage `i` can lengthen `frames` frames in machine numbers.
    pub open spec fn stage_room(self, i: int, frames: usize) -> bool {
        let length = frames * self.upsampling(i as nat) * self.upsample_rates@[i];
        &&& length + self.upsample_kernel_sizes@[i] <= usize::MAX
        &&& forall|j: int|
            0 <= j < self.blocks() ==> #[trigger] resblock_room(
                self.resblock,
                self.resblock_kernel_sizes@[j],
                self.resblock_dilation_sizes@[j]@,
                length,
            )
    }

    /// Whether `frames` frames can be lengthened in machine numbers.
    pub open spec fn room(self, frames: usize) -> bool {
        &&& frames + 6 <= usize::MAX
        &&& frames * self.upsampling(self.stages()) + 6 <= usize::MAX
        &&& self.stages() * self.resblock_kernel_sizes.len() <= isize::MAX
        &&& forall|i: int| 0 <= i < self.stages() ==> #[trigger] self.stage_room(i, frames)
    }
}

/// The signal that stage `n` of a generator takes over has the channels halved `n` times and is as
/// much longer as the product of the rates so far.
proof fn lemma_shape_after(
    config: GeneratorConfig,
    path: Path,
    generator: Generator,
    batch: usize,
    frames: usize,
    n: nat,
)
    requires
        config.valid(),
        config.upsamples_evenly(),
        config.describes(path, generator),
        config.room(frames),
        frames >= 1,
        n <= config.stages(),
    ensures
        generator.shape_after(
            n,
            Shape::D3(batch, config.upsample_initial_channel, frames),
        ) == Shape::D3(
            batch,
            halved(config.upsample_initial_channel, n),
            (frames * config.upsampling(n)) as usize,
        ),
        1 <= frames * config.upsampling(n) <= usize::MAX,
        forall|i: int|
            0 <= i < n ==> #[trigger] generator.stage_takes(
                i,
                Shape::D3(batch, config.upsample_initial_channel, frames),
            ),
    decreases n,
{
    let entry = Shape::D3(batch, config.upsample_initial_channel, frames);
    if n == 0 {
        lemma_halved(config.upsample_initial_channel, 0);
        assert(frames * 1 == frames) by (nonlinear_arith);
    } else {
        let i = n - 1;
        let m = i as nat;
        lemma_shape_after(config, path, generator, batch, frames, m);
        lemma_halved(config.upsample_initial_channel, m);
        let length = frames * config.upsampling(m);
        let rate = config.upsample_rates@[i];
        let kernel = config.upsample_kernel_sizes@[i];
        let up = generator.ups@[i];
        assert(up == config.up(i).built(path.field_expr("ups").index_expr(i as usize)));
        assert(config.stage_room(i, frames));
        assert(rate <= kernel && config.up(i).valid());
        assert(frames * config.upsampling(n) == length * rate) by (nonlinear_arith)
            requires
                config.upsampling(n) == config.upsampling(m) * rate as nat,
                length == frames * config.upsampling(m),
        ;
        assert((length - 1) * rate == length * rate - rate) by (nonlinear_arith);
        assert(length * rate >= 1) by (nonlinear_arith)
            requires
                length >= 1,
                rate >= 1,
        ;
        assert(0 <= (length - 1) * rate) by (nonlinear_arith)
            requires
                length >= 1,
                rate >= 1,
        ;
        assert(up.length_out(length as usize) == length * rate);
        let nk = generator.num_kernels;
        assert(m * nk + nk <= config.stages() * nk) by (nonlinear_arith)
            requires
                m + 1 <= config.stages(),
        ;
        assert(m * nk < generator.resblocks.len());
        assert(generator.stage_takes(i, entry)) by {
            assert forall|j: int|
                0 <= j < generator.resblocks.len() && generator.uses(i, j) implies (
            #[trigger] generator.resblocks@[j]).wf(up.channels_out())
                && generator.resblocks@[j].takes_length((length * rate) as usize) by {
                let index = j - i * nk;
                assert(config.describes_block(i, index, path, generator.resblocks@));
                assert(config.block_valid(i, index));
                assert(resblock_odd(
                    config.resblock_kernel_sizes@[index],
                    config.resblock_dilation_sizes@[index]@,
                ));
                assert(resblock_room(
                    config.resblock,
                    config.resblock_kernel_sizes@[index],
                    config.resblock_dilation_sizes@[index]@,
                    length * rate,
                ));
                lemma_resblock_keeps_shape(
                    config.resblock,
                    up.channels_out(),
                    config.resblock_kernel_sizes@[index],
                    config.resblock_dilation_sizes@[index]@,
                    path.field_expr("resblocks").index_expr((i * config.blocks() + index) as usize),
                    generator.resblocks@[j],
                    (length * rate) as usize,
                );
            }
        }
    }
}

/// A generator whose stages upsample evenly decodes every number of frames, and makes of each
/// frame as many samples as the product of its rates, in one channel.
pub proof fn lemma_samples_per_frame(
    config: GeneratorConfig,
    path: Path,
    generator: Generator,
    x: Shape,
)
    requires
        config.valid(),
        config.upsamples_evenly(),
        config.describes(path, generator),
        x == Shape::D3(x.at(0), config.initial_channel, x.at(2)),
        x.at(2) >= 1,
        config.room(x.at(2)),
    ensures
        generator.takes_shape(x, None),
        generator.shape_out(x, None) == Shape::D3(
            x.at(0),
            1,
            (x.at(2) * config.upsampling(config.stages())) as usize,
        ),
        x.at(2) * config.upsampling(config.stages()) <= usize::MAX,
{
    let frames = x.at(2);
    let total = (frames * config.upsampling(config.stages())) as usize;
    lemma_shape_after(config, path, generator, x.at(0), frames, config.stages());
    vstd::arithmetic::div_mod::lemma_div_basics(config.initial_channel as int);
    vstd::arithmetic::div_mod::lemma_div_basics(config.last_channels() as int);
    generator.conv_pre.window().lemma_keeps_length(frames, 7);
    generator.conv_post.window().lemma_keeps_length(total, 7);
    assert(generator.entry_shape(x, None) == Shape::D3(
        x.at(0),
        config.upsample_initial_channel,
        frames,
    ));
}

} // verus!

//! The discriminators, which judge samples while training.

use crate::conv::{
    get_padding, PaddingConfig2d, SNConv1d, SNConv2d, WNConv1d, WNConv1dConfig, WNConv2d,
    WNConv2dConfig,
};
use crate::param::{Initializer, Param, Path, Start};
use crate::shape::Shape;
use vstd::prelude::*;

verus! {

/// Settings of a [`DiscriminatorS`]. Whatever the normalisation asked for, the weights are held as
/// directions and magnitudes.
#[derive(Clone, Copy, PartialEq, Eq, Debug, Structural)]
pub struct DiscriminatorSConfig {
    pub use_spectral_norm: bool,
}

/// Convolutions over the samples as they are.
#[derive(Debug)]
pub struct DiscriminatorS {
    pub convs: Vec<DiscriminatorSLayers>,
    pub conv_post: DiscriminatorSLayers,
}

/// A layer of a [`DiscriminatorS`].
#[derive(Debug)]
pub enum DiscriminatorSLayers {
    SNConv1d(SNConv1d),
    WNConv1d(WNConv1d),
}

impl DiscriminatorSConfig {
    /// Without spectral normalisation.
    pub fn new() -> (r: DiscriminatorSConfig)
        ensures
            !r.use_spectral_norm,
    {
        DiscriminatorSConfig { use_spectral_norm: false }
    }

    pub fn with_use_spectral_norm(self, use_spectral_norm: bool) -> (r: DiscriminatorSConfig)
        ensures
            r == (DiscriminatorSConfig { use_spectral_norm, ..self }),
    {
        DiscriminatorSConfig { use_spectral_norm, ..self }
    }

    /// A convolution that moves by `stride` and is padded on both sides.
    pub open spec fn strided(
        channels_in: usize,
        channels_out: usize,
        kernel_size: usize,
        stride: usize,
        padding: usize,
        groups: usize,
    ) -> WNConv1dConfig {
        WNConv1dConfig {
            stride,
            padding,
            groups,
            ..WNConv1dConfig::usual(channels_in, channels_out, kernel_size)
        }
    }

    /// The settings of the layers.
    pub open spec fn layers() -> Seq<WNConv1dConfig> {
        seq![
            DiscriminatorSConfig::strided(1, 16, 15, 1, 7, 1),
            DiscriminatorSConfig::strided(16, 64, 41, 4, 20, 4),
            DiscriminatorSConfig::strided(64, 256, 41, 4, 20, 16),
            DiscriminatorSConfig::strided(256, 1024, 41, 4, 20, 64),
            DiscriminatorSConfig::strided(1024, 1024, 41, 4, 20, 256),
            DiscriminatorSConfig::strided(1024, 1024, 5, 1, 2, 1),
        ]
    }

    /// Whether layer `i` is made by these settings.
    pub open spec fn describes_layer(
        self,
        i: int,
        path: Path,
        layers: Seq<DiscriminatorSLayers>,
    ) -> bool {
        layers[i] == DiscriminatorSLayers::WNConv1d(
            DiscriminatorSConfig::layers()[i].built(
                path.field_expr("convs").index_expr(i as usize),
            ),
        )
    }

    /// Whether `module` is the discriminator, at a path.
    pub open spec fn describes(self, path: Path, module: DiscriminatorS) -> bool {
        &&& module.convs.len() == 6
        &&& forall|i: int| 0 <= i < 6 ==> #[trigger] self.describes_layer(i, path, module.convs@)
        &&& module.conv_post == DiscriminatorSLayers::WNConv1d(
            DiscriminatorSConfig::strided(1024, 1, 3, 1, 1, 1).built(
                path.field_expr("conv_post"),
            ),
        )
    }

    /// The discriminator, at a path.
    pub fn init(&self, path: &Path) -> (r: DiscriminatorS)
        ensures
            self.describes(*path, r),
    {
        let list = path.field("convs");
        let mut convs: Vec<DiscriminatorSLayers> = Vec::new();
        convs.push(
            DiscriminatorSLayers::WNConv1d(
                WNConv1dConfig::new(1, 16, 15).with_stride(1).with_padding(7).init(
                    &list.index(0),
                ),
            ),
        );
        convs.push(
            DiscriminatorSLayers::WNConv1d(
                WNConv1dConfig::new(16, 64, 41).with_stride(4).with_padding(20).with_groups(
                    4,
                ).init(&list.index(1)),
            ),
        );
        convs.push(
            DiscriminatorSLayers::WNConv1d(
                WNConv1dConfig::new(64, 256, 41).with_stride(4).with_padding(20).with_groups(
                    16,
                ).init(&list.index(2)),
            ),
        );
        convs.push(
            DiscriminatorSLayers::WNConv1d(
                WNConv1dConfig::new(256, 1024, 41).with_stride(4).with_padding(20).with_groups(
                    64,
                ).init(&list.index(3)),
            ),
        );
        convs.push(
            DiscriminatorSLayers::WNConv1d(
                WNConv1dConfig::new(1024, 1024, 41).with_stride(4).with_padding(20).with_groups(
                    256,
                ).init(&list.index(4)),
            ),
        );
        convs.push(
            DiscriminatorSLayers::WNConv1d(
                WNConv1dConfig::new(1024, 1024, 5).with_stride(1).with_padding(2).init(
                    &list.index(5),
                ),
            ),
        );
        proof {
            assert(self.describes_layer(0, *path, convs@));
            assert(self.describes_layer(1, *path, convs@));
            assert(self.describes_layer(2, *path, convs@));
            assert(self.describes_layer(3, *path, convs@));
            assert(self.describes_layer(4, *path, convs@));
            assert(self.describes_layer(5, *path, convs@));
        }
        DiscriminatorS {
            convs,
            conv_post: DiscriminatorSLayers::WNConv1d(
                WNConv1dConfig::new(1024, 1, 3).with_stride(1).with_padding(1).init(
                    &path.field("conv_post"),
                ),
            ),
        }
    }
}

/// Settings of a [`DiscriminatorP`]. Whatever the normalisation asked for, the weights are held as
/// directions and magnitudes.
#[derive(Clone, Copy, PartialEq, Eq, Debug, Structural)]
pub struct DiscriminatorPConfig {
    pub period: usize,
    pub kernel_size: usize,
    pub stride: usize,
    pub use_spectral_norm: bool,
}

/// Convolutions over the samples wrapped at a period.
#[derive(Debug)]
pub struct DiscriminatorP {
    pub convs: Vec<DiscriminatorPLayers>,
    pub conv_post: WNConv2d,
}

/// A layer of a [`DiscriminatorP`].
#[derive(Debug)]
pub enum DiscriminatorPLayers {
    SNConv2d(SNConv2d),
    WNConv2d(WNConv2d),
}

/// Whether `conv` is an undilated convolution of columns with a bias, at a path.
pub open spec fn is_column_conv(
    conv: WNConv2d,
    channels_in: usize,
    channels_out: usize,
    kernel_size: usize,
    stride: usize,
    padding: usize,
    path: Path,
) -> bool {
    let start = Start::Drawn {
        rule: Initializer::usual(),
        fan_in: (channels_in * kernel_size) as usize,
        fan_out: Some((channels_out * kernel_size) as usize),
    };
    &&& conv.weight_v == Param {
        path: path.field_expr("weight_v"),
        shape: Shape::D4(channels_out, channels_in, kernel_size, 1),
        start,
    }
    &&& conv.weight_g == Param {
        path: path.field_expr("weight_g"),
        shape: Shape::D4(channels_out, 1, 1, 1),
        start: Start::FilterNorms(path.field_expr("weight_v")),
    }
    &&& conv.bias == Some(
        Param { path: path.field_expr("bias"), shape: Shape::D1(channels_out), start },
    )
    &&& conv.stride@ == seq![stride, 1usize]
    &&& conv.kernel_size@ == seq![kernel_size, 1usize]
    &&& conv.dilation@ == seq![1usize, 1usize]
    &&& conv.groups == 1
    &&& conv.padding == PaddingConfig2d::Explicit(padding, 0, padding, 0)
}

fn column_conv(
    channels_in: usize,
    channels_out: usize,
    kernel_size: usize,
    stride: usize,
    padding: usize,
    path: &Path,
) -> (r: WNConv2d)
    requires
        channels_in * kernel_size <= usize::MAX,
        channels_out * kernel_size <= usize::MAX,
    ensures
        is_column_conv(r, channels_in, channels_out, kernel_size, stride, padding, *path),
{
    proof {
        vstd::arithmetic::div_mod::lemma_div_basics(channels_in as int);
        vstd::arithmetic::div_mod::lemma_div_basics(channels_out as int);
        vstd::arithmetic::mul::lemma_mul_basics(channels_in * kernel_size);
        vstd::arithmetic::mul::lemma_mul_basics(channels_out * kernel_size);
    }
    WNConv2dConfig::new([channels_in, channels_out], [kernel_size, 1]).with_stride(
        [stride, 1],
    ).with_padding(PaddingConfig2d::Explicit(padding, 0, padding, 0)).init(path)
}

impl DiscriminatorPConfig {
    /// Five taps moved by three, without spectral normalisation.
    pub fn new(period: usize) -> (r: DiscriminatorPConfig)
        ensures
            r == (DiscriminatorPConfig {
                period,
                kernel_size: 5,
                stride: 3,
                use_spectral_norm: false,
            }),
    {
        DiscriminatorPConfig { period, kernel_size: 5, stride: 3, use_spectral_norm: false }
    }

    pub fn with_use_spectral_norm(self, use_spectral_norm: bool) -> (r: DiscriminatorPConfig)
        ensures
            r == (DiscriminatorPConfig { use_spectral_norm, ..self }),
    {
        DiscriminatorPConfig { use_spectral_norm, ..self }
    }

    pub fn with_kernel_size(self, kernel_size: usize) -> (r: DiscriminatorPConfig)
        ensures
            r == (DiscriminatorPConfig { kernel_size, ..self }),
    {
        DiscriminatorPConfig { kernel_size, ..self }
    }

    pub fn with_stride(self, stride: usize) -> (r: DiscriminatorPConfig)
        ensures
            r == (DiscriminatorPConfig { stride, ..self }),
    {
        DiscriminatorPConfig { stride, ..self }
    }

    pub open spec fn valid(self) -> bool {
        self.kernel_size >= 1 && 1024 * self.kernel_size <= usize::MAX
    }

    /// The channels before and after each layer.
    pub open spec fn widths() -> Seq<usize> {
        seq![1usize, 32, 128, 512, 1024, 1024]
    }

    /// Whether `layer` is layer `i`: all but the last move by the stride.
    pub open spec fn describes_layer(
        self,
        i: int,
        path: Path,
        layers: Seq<DiscriminatorPLayers>,
    ) -> bool {
        let widths = DiscriminatorPConfig::widths();
        &&& layers[i] matches DiscriminatorPLayers::WNConv2d(conv)
        &&& is_column_conv(
            conv,
            widths[i],
            widths[i + 1],
            self.kernel_size,
            if i < 4 {
                self.stride
            } else {
                1
            },
            ((self.kernel_size - 1) / 2) as usize,
            path.field_expr("convs").index_expr(i as usize),
        )
    }

    /// Whether `module` is the discriminator with these settings, at a path.
    pub open spec fn describes(self, path: Path, module: DiscriminatorP) -> bool {
        &&& module.convs.len() == 5
        &&& forall|i: int| 0 <= i < 5 ==> #[trigger] self.describes_layer(i, path, module.convs@)
        &&& is_column_conv(module.conv_post, 1024, 1, 3, 1, 1, path.field_expr("conv_post"))
    }

    /// The discriminator with these settings, at a path.
    pub fn init(&self, path: &Path) -> (r: DiscriminatorP)
        requires
            self.valid(),
        ensures
            self.describes(*path, r),
    {
        let padding: usize = get_padding(self.kernel_size, 1);
        let list = path.field("convs");
        let k: usize = self.kernel_size;
        let mut convs: Vec<DiscriminatorPLayers> = Vec::new();
        convs.push(
            DiscriminatorPLayers::WNConv2d(
                column_conv(1, 32, k, self.stride, padding, &list.index(0)),
            ),
        );
        convs.push(
            DiscriminatorPLayers::WNConv2d(
                column_conv(32, 128, k, self.stride, padding, &list.index(1)),
            ),
        );
        convs.push(
            DiscriminatorPLayers::WNConv2d(
                column_conv(128, 512, k, self.stride, padding, &list.index(2)),
            ),
        );
        convs.push(
            DiscriminatorPLayers::WNConv2d(
                column_conv(512, 1024, k, self.stride, padding, &list.index(3)),
            ),
        );
        convs.push(
            DiscriminatorPLayers::WNConv2d(
                column_conv(1024, 1024, k, 1, padding, &list.index(4)),
            ),
        );
        DiscriminatorP {
            convs,
            conv_post: column_conv(1024, 1, 3, 1, 1, &path.field("conv_post")),
        }
    }
}

/// Settings of a [`MultiPeriodDiscriminator`].
#[derive(Clone, Copy, PartialEq, Eq, Debug, Structural)]
pub struct MultiPeriodDiscriminatorConfig {
    pub use_spectral_norm: bool,
}

/// A discriminator of the samples as they are and one for each of five periods.
#[derive(Debug)]
pub struct MultiPeriodDiscriminator {
    pub discriminators: Vec<MultiPeriodDiscriminatorLayers>,
}

/// A part of a [`MultiPeriodDiscriminator`].
#[derive(Debug)]
pub enum MultiPeriodDiscriminatorLayers {
    DiscriminatorS(DiscriminatorS),
    DiscriminatorP(DiscriminatorP),
}

impl MultiPeriodDiscriminatorConfig {
    /// Without spectral normalisation.
    pub fn new() -> (r: MultiPeriodDiscriminatorConfig)
        ensures
            !r.use_spectral_norm,
    {
        MultiPeriodDiscriminatorConfig { use_spectral_norm: false }
    }

    pub fn with_use_spectral_norm(self, use_spectral_norm: bool) -> (r:
        MultiPeriodDiscriminatorConfig)
        ensures
            r == (MultiPeriodDiscriminatorConfig { use_spectral_norm }),
    {
        MultiPeriodDiscriminatorConfig { use_spectral_norm }
    }

    /// The periods.
    pub open spec fn periods() -> Seq<usize> {
        seq![2usize, 3, 5, 7, 11]
    }

    /// Whether part `i` is the discriminator of the samples as they are or, after the first, that
    /// for a period.
    pub open spec fn describes_part(
        self,
        i: int,
        path: Path,
        parts: Seq<MultiPeriodDiscriminatorLayers>,
    ) -> bool {
        let at = path.field_expr("discriminators").index_expr(i as usize);
        if i == 0 {
            &&& parts[i] matches MultiPeriodDiscriminatorLayers::DiscriminatorS(part)
            &&& DiscriminatorSConfig { use_spectral_norm: self.use_spectral_norm }.describes(
                at,
                part,
            )
        } else {
            &&& parts[i] matches MultiPeriodDiscriminatorLayers::DiscriminatorP(part)
            &&& DiscriminatorPConfig {
                period: MultiPeriodDiscriminatorConfig::periods()[i - 1],
                kernel_size: 5,
                stride: 3,
                use_spectral_norm: self.use_spectral_norm,
            }.describes(at, part)
        }
    }

    /// Whether `module` is the discriminator with these settings, at a path.
    pub open spec fn describes(self, path: Path, module: MultiPeriodDiscriminator) -> bool {
        &&& module.discriminators.len() == 6
        &&& forall|i: int|
            0 <= i < 6 ==> #[trigger] self.describes_part(i, path, module.discriminators@)
    }

    /// The discriminator with these settings, at a path.
    pub fn init(&self, path: &Path) -> (r: MultiPeriodDiscriminator)
        ensures
            self.describes(*path, r),
    {
        let periods: [usize; 5] = [2, 3, 5, 7, 11];
        let list = path.field("discriminators");
        let mut discriminators: Vec<MultiPeriodDiscriminatorLayers> = Vec::new();
        discriminators.push(
            MultiPeriodDiscriminatorLayers::DiscriminatorS(
                DiscriminatorSConfig::new().with_use_spectral_norm(self.use_spectral_norm).init(
                    &list.index(0),
                ),
            ),
        );
        let mut i: usize = 0;
        while i < 5
            invariant
                i <= 5,
                periods@ == MultiPeriodDiscriminatorConfig::periods(),
                list == path.field_expr("discriminators"),
                discriminators.len() == i + 1,
                forall|a: int|
                    0 <= a < i + 1 ==> #[trigger] self.describes_part(a, *path, discriminators@),
            decreases 5 - i,
        {
            let ghost before = discriminators@;
            let config = DiscriminatorPConfig::new(periods[i]).with_use_spectral_norm(
                self.use_spectral_norm,
            );
            discriminators.push(
                MultiPeriodDiscriminatorLayers::DiscriminatorP(config.init(&list.index(i + 1))),
            );
            proof {
                assert forall|a: int| 0 <= a < i + 2 implies #[trigger] self.describes_part(
                    a,
                    *path,
                    discriminators@,
                ) by {
                    if a < i + 1 {
                        assert(self.describes_part(a, *path, before));
                    }
                }
            }
            i += 1;
        }
        MultiPeriodDiscriminator { discriminators }
    }
}

} // verus!

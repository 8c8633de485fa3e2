//! Layers as their settings make them.

use piper_vits::attention::{FFNConfig, MultiHeadAttentionConfig};
use piper_vits::attention::{GELU_FACTOR, MASKED_SCORE, MINUS_HALF};
use piper_vits::conv::{
    get_padding, PaddingConfig2d, WNConv2d,
    WNConv1dConfig, WNConv2dConfig, WNConvTranspose1dConfig, NORM_FLOOR, NORM_FLOOR_2D,
};
use piper_vits::discriminator::{
    DiscriminatorPConfig, DiscriminatorPLayers, DiscriminatorSConfig, DiscriminatorSLayers,
    MultiPeriodDiscriminatorConfig, MultiPeriodDiscriminatorLayers,
};
use piper_vits::encoder::{EncoderConfig, TextEncoderConfig};
use piper_vits::flow::{ResidualCouplingBlockConfig, ResidualCouplingBlockLayers, LOG_FLOOR};
use piper_vits::generator::{
    multiplied, GeneratorConfig, ResBlock, ResBlockConfig, LAST_SLOPE, LRELU_SLOPE,
};
use piper_vits::number::{Real, FOUR, INFINITY_BITS, ONE, SIGN_BIT, TWO, ZERO};
use piper_vits::param::{Initializer, Path, Start, ROOT_THREE_INVERSE};
use piper_vits::predictor::{
    StochasticDurationPredictorConfig, StochasticDurationPredictorLayers, TAIL_BOUND,
};
use piper_vits::shape::Shape;
use piper_vits::spline::{
    DEFAULT_MIN_BIN_HEIGHT, DEFAULT_MIN_BIN_WIDTH, DEFAULT_MIN_DERIVATIVE, EDGE_TOLERANCE,
};
use piper_vits::synthesizer::HALF;
use piper_vits::tensor::{Kind, Tensor};
use piper_vits::vits::{ModelError, VitsConfig, NOISE_SCALE, NOISE_W, P_DROPOUT};
use piper_vits::wavenet::{DDSConvConfig, WNConfig};

fn signal(b: usize, c: usize, t: usize) -> Tensor {
    Tensor::input(0, Kind::Float, Shape::D3(b, c, t))
}

fn mask(b: usize, t: usize) -> Tensor {
    Tensor::input(1, Kind::Float, Shape::D3(b, 1, t))
}

fn name(path: &Path) -> String {
    match path {
        Path::Root => String::new(),
        Path::Field(of, field) => format!("{}.{}", name(of), field),
        Path::Index(of, i) => format!("{}.{}", name(of), i),
    }
}

#[test]
fn constants_have_their_patterns() {
    assert_eq!(INFINITY_BITS, f64::INFINITY.to_bits());
    assert_eq!(SIGN_BIT, (-0.0f64).to_bits());
    assert_eq!(ZERO, 0.0f64.to_bits());
    assert_eq!(ONE, 1.0f64.to_bits());
    assert_eq!(TWO, 2.0f64.to_bits());
    assert_eq!(FOUR, 4.0f64.to_bits());
    assert_eq!(HALF, 0.5f64.to_bits());
    assert_eq!(MINUS_HALF, (-0.5f64).to_bits());
    assert_eq!(LRELU_SLOPE, 0.1f64.to_bits());
    assert_eq!(LAST_SLOPE, 0.01f64.to_bits());
    assert_eq!(GELU_FACTOR, 1.702f64.to_bits());
    assert_eq!(MASKED_SCORE, (-1e4f64).to_bits());
    assert_eq!(NORM_FLOOR, 1e-12f64.to_bits());
    assert_eq!(NORM_FLOOR_2D, ((1e-8f32) as f64).to_bits());
    assert_eq!(LOG_FLOOR, 1e-5f64.to_bits());
    assert_eq!(DEFAULT_MIN_BIN_WIDTH, 1e-3f64.to_bits());
    assert_eq!(DEFAULT_MIN_BIN_HEIGHT, 1e-3f64.to_bits());
    assert_eq!(DEFAULT_MIN_DERIVATIVE, 1e-3f64.to_bits());
    assert_eq!(EDGE_TOLERANCE, 1e-6f64.to_bits());
    assert_eq!(TAIL_BOUND, 5.0f64.to_bits());
    assert_eq!(P_DROPOUT, 0.1f64.to_bits());
    assert_eq!(NOISE_SCALE, 0.667f64.to_bits());
    assert_eq!(NOISE_W, 0.8f64.to_bits());
}

#[test]
fn numbers_between_zero_and_one_are_told() {
    let within = |v: f64| Real::from_bits(v.to_bits()).is_within_unit();
    assert!(within(0.0));
    assert!(within(-0.0));
    assert!(within(0.1));
    assert!(within(1.0));
    assert!(!within(1.0000000000000002));
    assert!(!within(-1e-300));
    assert!(!within(f64::INFINITY));
    assert!(within(f64::NAN));
}

#[test]
fn padding_keeps_the_length_for_odd_kernels() {
    assert_eq!(get_padding(3, 1), 1);
    assert_eq!(get_padding(7, 3), 9);
    assert_eq!(get_padding(1, 12), 0);
    assert_eq!(get_padding(4, 1), 1);
    let conv = WNConv1dConfig::new(4, 4, 7).with_dilation(3).with_padding(get_padding(7, 3));
    let conv = conv.init(&Path::Root);
    assert!(conv.is_length_keeping(4, 4));
    assert_eq!(conv.forward(signal(1, 4, 50)).shape, Shape::D3(1, 4, 50));
}

#[test]
fn normalised_weights_start_at_their_norms() {
    let conv = WNConv1dConfig::new(6, 4, 5).with_groups(2).init(&Path::Root.field("c"));
    assert_eq!(conv.weight_v.shape, Shape::D3(4, 3, 5));
    assert_eq!(conv.weight_g.shape, Shape::D3(4, 1, 1));
    assert_eq!(name(&conv.weight_g.path), ".c.weight_g");
    match &conv.weight_g.start {
        Start::FilterNorms(path) => assert_eq!(name(path), name(&conv.weight_v.path)),
        other => panic!("{:?}", other),
    }
    let up = WNConvTranspose1dConfig::new(8, 4, 16, 8).with_padding(4).init(&Path::Root);
    assert_eq!(up.weight_v.shape, Shape::D3(8, 4, 16));
    assert_eq!(up.weight_g.shape, Shape::D3(8, 1, 1));
    assert_eq!(up.forward(signal(1, 8, 10)).shape, Shape::D3(1, 4, 80));
}

#[test]
fn weights_start_by_the_rule_that_was_asked_for() {
    assert_eq!(ROOT_THREE_INVERSE, (1.0 / 3f64.sqrt()).to_bits());
    let usual = Initializer::KaimingUniform {
        gain: Real::from_bits(ROOT_THREE_INVERSE),
        fan_out_only: false,
    };
    let config = WNConv2dConfig::new([6, 4], [5, 3]).with_groups(2).with_dilation([2, 1]);
    assert_eq!(config.initializer, usual);
    let rule = Initializer::Constant { value: Real::from_bits(0.5f64.to_bits()) };
    for (asked, expected) in [(config, usual), (config.with_initializer(rule), rule)] {
        let conv = asked.init(&Path::Root);
        assert_eq!(conv.dilation, [2, 1]);
        for start in [&conv.weight_v.start, &conv.bias.as_ref().unwrap().start] {
            match start {
                Start::Drawn { rule, fan_in, fan_out } => {
                    assert_eq!((*rule, *fan_in, *fan_out), (expected, 45, Some(30)));
                }
                other => panic!("{:?}", other),
            }
        }
        assert!(asked.with_bias(false).init(&Path::Root).bias.is_none());
    }
}

#[test]
fn settings_of_layers_change_one_at_a_time() {
    let conv = WNConv1dConfig::new(4, 4, 3).with_bias(false).init(&Path::Root);
    assert!(conv.bias.is_none());
    let up = WNConvTranspose1dConfig::new(8, 4, 16, 8).with_padding(4).with_output_padding(1);
    assert_eq!(up.init(&Path::Root).forward(signal(1, 8, 10)).shape, Shape::D3(1, 4, 81));
    let block = ResidualCouplingBlockConfig::new(4, 6, 5, 1, 2, 0).with_n_flows(3);
    assert_eq!(block.init(&Path::Root).flows.len(), 6);
    let attention = MultiHeadAttentionConfig::new(4, 4, 2)
        .with_window_size(Some(3))
        .with_heads_share(false)
        .init(&Path::Root);
    assert_eq!(attention.emb_rel_k.unwrap().shape, Shape::D3(2, 7, 2));
}

#[test]
fn same_padding_covers_every_step() {
    assert_eq!(WNConv2d::calculate_same_padding(3, 1, 10), (1, 1));
    assert_eq!(WNConv2d::calculate_same_padding(5, 3, 10), (2, 2));
    assert_eq!(WNConv2d::calculate_same_padding(4, 1, 10), (1, 2));
    assert_eq!(WNConv2d::calculate_same_padding(1, 4, 10), (0, 0));
    for (kernel, stride, size) in [(5, 3, 10), (4, 1, 10), (3, 2, 7), (7, 5, 1)] {
        let (before, after) = WNConv2d::calculate_same_padding(kernel, stride, size);
        let steps = (size + before + after - kernel) / stride + 1;
        assert_eq!(steps, (size + stride - 1) / stride);
    }
    let same = PaddingConfig2d::Same;
    let pairs = WNConv2d::calculate_padding_2d_pairs(same, 10, 4, &[5, 1], &[3, 1]);
    assert_eq!(pairs, ((2, 2), (0, 0)));
    let pairs = WNConv2d::calculate_padding_2d_pairs(
        PaddingConfig2d::Explicit(1, 2, 3, 4),
        10,
        4,
        &[5, 1],
        &[3, 1],
    );
    assert_eq!(pairs, ((1, 3), (2, 4)));
    let valid = PaddingConfig2d::Valid;
    let pairs = WNConv2d::calculate_padding_2d_pairs(valid, 10, 4, &[5, 1], &[3, 1]);
    assert_eq!(pairs, ((0, 0), (0, 0)));
}

#[test]
fn convolutions_in_two_dimensions_stride_over_the_height() {
    let conv = WNConv2dConfig::new([1, 32], [5, 1])
        .with_stride([3, 1])
        .with_padding(PaddingConfig2d::Explicit(2, 0, 2, 0))
        .init(&Path::Root);
    assert_eq!(conv.weight_v.shape, Shape::D4(32, 1, 5, 1));
    assert_eq!(conv.weight_g.shape, Shape::D4(32, 1, 1, 1));
    let input = Tensor::input(0, Kind::Float, Shape::D4(1, 1, 100, 2));
    assert_eq!(conv.forward(input).shape, Shape::D4(1, 32, 34, 2));
}

#[test]
fn layers_keep_the_shape_of_a_signal() {
    let attention = MultiHeadAttentionConfig::new(192, 192, 2).with_window_size(Some(4));
    let attention = attention.init(&Path::Root);
    assert!(attention.accepts_length(123));
    let pairs = Tensor::input(2, Kind::Float, Shape::D4(1, 1, 123, 123));
    let x = signal(1, 192, 123);
    assert_eq!(attention.forward(x.clone(), x.clone(), Some(pairs)).shape, x.shape);
    let ffn = FFNConfig::new(192, 192, 768, 3).init(&Path::Root);
    assert_eq!(ffn.forward(x.clone(), mask(1, 123)).shape, x.shape);
    let dds = DDSConvConfig::new(192, 3, 3).init(&Path::Root);
    assert!(dds.accepts_length(123));
    assert_eq!(dds.forward(x.clone(), mask(1, 123), None).shape, x.shape);
    let wn = WNConfig::new(192, 5, 1, 4).init(&Path::Root);
    assert!(wn.accepts_length(123));
    assert_eq!(wn.forward(x.clone(), mask(1, 123), None).shape, x.shape);
    let encoder = EncoderConfig::new(192, 768, 2, 6, 3, Real::from_bits(P_DROPOUT));
    assert!(encoder.accepts());
    let encoder = encoder.init(&Path::Root);
    assert_eq!(encoder.attn_layers.len(), 6);
    assert!(encoder.accepts_length(123));
    assert_eq!(encoder.forward(x.clone(), mask(1, 123)).shape, x.shape);
}

#[test]
fn text_becomes_means_and_deviations() {
    let config = TextEncoderConfig::new(256, 192, 192, 768, 2, 6, 3, Real::from_bits(P_DROPOUT));
    assert!(config.accepts());
    let encoder = config.init(&Path::Root.field("enc_p"));
    assert_eq!(encoder.emb.weight.shape, Shape::D2(256, 192));
    assert_eq!(name(&encoder.emb.weight.path), ".enc_p.emb.weight");
    let ids = Tensor::input(0, Kind::Int, Shape::D2(1, 17));
    let lengths = Tensor::input(1, Kind::Int, Shape::D1(1));
    let (x, m, logs, x_mask) = encoder.forward(ids, lengths);
    assert_eq!(x.shape, Shape::D3(1, 192, 17));
    assert_eq!(m.shape, Shape::D3(1, 192, 17));
    assert_eq!(logs.shape, Shape::D3(1, 192, 17));
    assert_eq!(x_mask.shape, Shape::D3(1, 1, 17));
}

#[test]
fn attention_divides_the_channels() {
    let config = MultiHeadAttentionConfig::new(192, 192, 2).with_window_size(Some(4));
    let attention = config.init(&Path::Root.field("a"));
    assert_eq!(attention.k_channels, 96);
    let keys = attention.emb_rel_k.as_ref().unwrap();
    assert_eq!(keys.shape, Shape::D3(1, 9, 96));
    assert_eq!(name(&keys.path), ".a.emb_rel_k");
    assert!(MultiHeadAttentionConfig::new(4, 4, 2).init(&Path::Root).emb_rel_k.is_none());
}

#[test]
fn blocks_come_in_two_kinds() {
    let one = ResBlockConfig::new(1, 8, 3, vec![1, 3, 5]).init(&Path::Root);
    match &one {
        ResBlock::ResBlock1(block) => {
            assert_eq!(block.convs1.len(), 3);
            assert_eq!(block.convs2.len(), 3);
            assert_eq!(block.convs1[2].dilation, 5);
            assert_eq!(block.convs1[2].padding, 5);
            assert_eq!(block.convs2[2].dilation, 1);
            assert_eq!(block.lrelu_slope.bits, 0.1f64.to_bits());
        }
        other => panic!("{:?}", other),
    }
    assert!(one.accepts(8, 20));
    assert_eq!(one.forward(signal(1, 8, 20), None).shape, Shape::D3(1, 8, 20));
    let two = ResBlockConfig::new(2, 8, 5, vec![2, 6]).init(&Path::Root);
    match &two {
        ResBlock::ResBlock2(block) => assert_eq!(block.convs.len(), 2),
        other => panic!("{:?}", other),
    }
    assert_eq!(two.forward(signal(1, 8, 20), Some(mask(1, 20))).shape, Shape::D3(1, 8, 20));
}

#[test]
fn every_frame_becomes_as_many_samples_as_the_rates_say() {
    let config = GeneratorConfig::new(
        192,
        2,
        vec![3, 5, 7],
        vec![vec![1, 2], vec![2, 6], vec![3, 12]],
        vec![8, 8, 4],
        256,
        vec![16, 16, 8],
        0,
    );
    assert!(config.accepts());
    assert_eq!(multiplied(&config.upsample_rates), Some(256));
    let generator = config.init(&Path::Root.field("dec"));
    assert_eq!(generator.ups.len(), 3);
    assert_eq!(generator.resblocks.len(), 9);
    assert_eq!(generator.num_kernels, 3);
    assert_eq!(generator.conv_post.weight.shape, Shape::D3(1, 32, 7));
    assert_eq!(name(&generator.ups[1].weight_v.path), ".dec.ups.1.weight_v");
    assert!(generator.cond.is_none());
    let x = signal(1, 192, 37);
    assert!(generator.accepts(&x.shape));
    assert_eq!(generator.forward(x, None).shape, Shape::D3(1, 1, 37 * 256));
    assert!(!generator.accepts(&Shape::D3(1, 191, 37)));
}

#[test]
fn rates_whose_product_is_too_large_have_none() {
    assert_eq!(multiplied(&vec![]), Some(1));
    assert_eq!(multiplied(&vec![usize::MAX, 2]), None);
}

#[test]
fn coupling_layers_alternate_with_flips() {
    let block = ResidualCouplingBlockConfig::new(192, 192, 5, 1, 4, 0).init(&Path::Root);
    assert_eq!(block.flows.len(), 8);
    for (i, step) in block.flows.iter().enumerate() {
        match step {
            ResidualCouplingBlockLayers::ResidualCouplingLayer(layer) => {
                assert_eq!(i % 2, 0);
                assert!(layer.mean_only);
                assert_eq!(layer.half_channels, 96);
                assert_eq!(name(&layer.pre.weight.path), format!(".flows.{}.pre.weight", i));
                assert_eq!(layer.post.weight.shape, Shape::D3(96, 192, 1));
            }
            ResidualCouplingBlockLayers::Flip(_) => assert_eq!(i % 2, 1),
        }
    }
    assert!(block.accepts_length(192, 31));
    let x = signal(1, 192, 31);
    assert_eq!(block.forward(x, mask(1, 31), None, true).shape, Shape::D3(1, 192, 31));
}

#[test]
fn durations_are_predicted_in_reverse() {
    let config =
        StochasticDurationPredictorConfig::new(192, 192, 3, Real::from_bits(HALF), 4, 0);
    let predictor = config.init(&Path::Root.field("dp"));
    assert_eq!(predictor.flows.len(), 9);
    assert_eq!(predictor.post_flows.len(), 9);
    assert!(matches!(
        predictor.flows[0],
        StochasticDurationPredictorLayers::ElementwiseAffine(_)
    ));
    assert!(matches!(predictor.flows[1], StochasticDurationPredictorLayers::ConvFlow(_)));
    assert!(matches!(predictor.flows[2], StochasticDurationPredictorLayers::Flip(_)));
    assert!(predictor.accepts(1, 9));
    assert!(!predictor.accepts(1, 1));
    assert!(!predictor.accepts(2, 9));
    let logw = predictor.forward(
        signal(1, 192, 9),
        mask(1, 9),
        None,
        None,
        true,
        Real::from_bits(NOISE_W),
    );
    assert_eq!(logw.shape, Shape::D3(1, 1, 9));
}

#[test]
fn discriminators_have_their_layers() {
    let s = DiscriminatorSConfig::new().init(&Path::Root);
    assert_eq!(s.convs.len(), 6);
    let widths: Vec<usize> = s
        .convs
        .iter()
        .map(|conv| match conv {
            DiscriminatorSLayers::WNConv1d(conv) => conv.weight_v.shape.dim(0),
            DiscriminatorSLayers::SNConv1d(_) => 0,
        })
        .collect();
    assert_eq!(widths, vec![16, 64, 256, 1024, 1024, 1024]);
    let p = DiscriminatorPConfig::new(3).init(&Path::Root);
    let widths: Vec<usize> = p
        .convs
        .iter()
        .map(|conv| match conv {
            DiscriminatorPLayers::WNConv2d(conv) => conv.weight_v.shape.dim(0),
            DiscriminatorPLayers::SNConv2d(_) => 0,
        })
        .collect();
    assert_eq!(widths, vec![32, 128, 512, 1024, 1024]);
    let all = MultiPeriodDiscriminatorConfig::new().init(&Path::Root);
    assert_eq!(all.discriminators.len(), 6);
    assert!(matches!(
        all.discriminators[0],
        MultiPeriodDiscriminatorLayers::DiscriminatorS(_)
    ));
}

#[test]
fn models_are_built_or_refused() {
    let (model, speaks) = VitsConfig::new().checked_init(&Path::Root).unwrap();
    assert!(speaks);
    assert_eq!(model.sample_rate, 22050);
    assert_eq!(model.model_g.n_speakers, 1);
    assert!(model.model_g.emb_g.is_none());
    assert_eq!(name(&model.model_g.enc_p.emb.weight.path), ".model_g.enc_p.emb.weight");
    assert!(model.model_g.accepts_length(2));
    assert!(!model.model_g.accepts_length(1));
    assert!(!model.model_g.accepts_length(0));
    assert!(model.model_g.accepts_frames(2, 1, None));
    assert!(!model.model_g.accepts_frames(2, usize::MAX, None));
    let mut config = VitsConfig::new();
    config.hop_length = 255;
    assert!(matches!(config.checked_init(&Path::Root), Err(ModelError::HopLength)));
    let mut config = VitsConfig::new();
    config.n_heads = 0;
    assert!(matches!(config.checked_init(&Path::Root), Err(ModelError::Network)));
    let mut config = VitsConfig::new();
    config.n_heads = 5;
    assert!(!config.checked_init(&Path::Root).unwrap().1);
}

#[test]
fn several_speakers_get_an_embedding_and_no_voice() {
    let config = VitsConfig::new().with_num_speakers(3);
    let (model, speaks) = config.checked_init(&Path::Root).unwrap();
    assert!(!speaks);
    assert_eq!(model.model_g.emb_g.unwrap().weight.shape, Shape::D2(3, 512));
}

#[test]
fn a_voice_of_high_quality_speaks() {
    let config = VitsConfig::new()
        .with_resblock(1)
        .with_resblock_kernel_sizes(vec![3, 7, 11])
        .with_resblock_dilation_sizes(vec![vec![1, 3, 5], vec![1, 3, 5], vec![1, 3, 5]])
        .with_upsample_rates(vec![8, 8, 2, 2])
        .with_upsample_initial_channel(512)
        .with_upsample_kernel_sizes(vec![16, 16, 4, 4]);
    let (model, speaks) = config.checked_init(&Path::Root).unwrap();
    assert!(speaks);
    let number = |v: f64| Real::from_bits(v.to_bits());
    assert!(model.model_g.accepts_length(12) && model.model_g.accepts_frames(12, 40, None));
    let samples = model.forward(
        Tensor::input(0, Kind::Int, Shape::D2(1, 12)),
        Tensor::input(1, Kind::Int, Shape::D1(1)),
        number(0.667),
        number(1.0),
        number(0.8),
        None,
        None,
        40,
    );
    assert_eq!(samples.shape, Shape::D3(1, 1, 40 * 256));
}

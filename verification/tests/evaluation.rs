//! Recipes computed with a plain evaluator.

use piper_vits::attention::{FFNConfig, MultiHeadAttention, MultiHeadAttentionConfig};
use piper_vits::conv::{PaddingConfig2d, WNConv2dConfig};
use piper_vits::encoder::{longest_of, sequence_mask, TextEncoderConfig};
use piper_vits::flow::{
    ElementwiseAffineConfig, Flip, Log, ResidualCouplingBlockConfig, ResidualCouplingLayerConfig,
};
use piper_vits::number::{Real, Scalar};
use piper_vits::param::Path;
use piper_vits::predictor::{ConvFlowConfig, StochasticDurationPredictorConfig};
use piper_vits::shape::Shape;
use piper_vits::speech::{output_path, Sentence, SpeechError};
use piper_vits::spline::{
    piecewise_rational_quadratic_transform, rational_quadratic_spline, searchsorted,
    unconstrained_rational_quadratic_spline, SplineBox,
};
use piper_vits::synthesizer::generate_path;
use piper_vits::tensor::{BinaryOp, Kind, Noise, Op, ScalarOp, Single, Tensor, UnaryOp, Window};
use piper_vits::vits::VitsConfig;
use piper_vits::voice::Scales;
use piper_vits::wavenet::{fused_add_tanh_sigmoid_multiply, WNConfig};
use std::collections::HashMap;
use std::rc::Rc;

#[derive(Clone, Debug)]
struct Array {
    dims: Vec<usize>,
    data: Vec<f64>,
}

struct Evaluator {
    inputs: Vec<Array>,
    /// Parameters whose values are given, by the text of their paths.
    given: HashMap<String, Array>,
    /// What all noise is multiplied by.
    loudness: f64,
    done: HashMap<usize, (Rc<Op>, Array)>,
}

fn dims_of(shape: &Shape) -> Vec<usize> {
    match *shape {
        Shape::D1(a) => vec![a],
        Shape::D2(a, b) => vec![a, b],
        Shape::D3(a, b, c) => vec![a, b, c],
        Shape::D4(a, b, c, d) => vec![a, b, c, d],
    }
}

fn scalar(value: &Scalar) -> f64 {
    match value {
        Scalar::Literal(number) => f64::from_bits(number.bits),
        Scalar::Count(n) => *n as f64,
        Scalar::SingleCount(n) => (*n as f32) as f64,
        Scalar::Neg(a) => -scalar(a),
        Scalar::Sqrt(a) => scalar(a).sqrt(),
        Scalar::Exp(a) => scalar(a).exp(),
        Scalar::Ln(a) => scalar(a).ln(),
        Scalar::Sub(a, b) => scalar(a) - scalar(b),
        Scalar::Mul(a, b) => scalar(a) * scalar(b),
        Scalar::Pow(a, e) => scalar(a).powf(f64::from_bits(e.bits)),
    }
}

impl Array {
    fn build(dims: Vec<usize>, f: impl Fn(&[usize]) -> f64) -> Array {
        let count: usize = dims.iter().product();
        let mut data = Vec::with_capacity(count);
        let mut idx = vec![0usize; dims.len()];
        for _ in 0..count {
            data.push(f(&idx));
            for d in (0..dims.len()).rev() {
                idx[d] += 1;
                if idx[d] < dims[d] {
                    break;
                }
                idx[d] = 0;
            }
        }
        Array { dims, data }
    }

    fn at(&self, idx: &[usize]) -> f64 {
        let mut k = 0;
        for d in 0..self.dims.len() {
            k = k * self.dims[d] + idx[d];
        }
        self.data[k]
    }

    fn stretched(&self, idx: &[usize]) -> f64 {
        let own: Vec<usize> =
            (0..idx.len()).map(|d| if self.dims[d] == 1 { 0 } else { idx[d] }).collect();
        self.at(&own)
    }

    fn map(&self, f: impl Fn(f64) -> f64) -> Array {
        Array { dims: self.dims.clone(), data: self.data.iter().map(|v| f(*v)).collect() }
    }
}

fn with(idx: &[usize], d: usize, v: usize) -> Vec<usize> {
    let mut changed = idx.to_vec();
    changed[d] = v;
    changed
}

fn erf(x: f64) -> f64 {
    let t = 1.0 / (1.0 + 0.3275911 * x.abs());
    let poly = ((((1.061405429 * t - 1.453152027) * t + 1.421413741) * t - 0.284496736) * t
        + 0.254829592)
        * t;
    let y = 1.0 - poly * (-x * x).exp();
    if x < 0.0 {
        -y
    } else {
        y
    }
}

impl Evaluator {
    fn new(inputs: Vec<Array>) -> Evaluator {
        Evaluator { inputs, given: HashMap::new(), loudness: 1.0, done: HashMap::new() }
    }

    /// Another evaluator that draws other noise.
    fn louder(inputs: Vec<Array>) -> Evaluator {
        Evaluator { loudness: 3.0, ..Evaluator::new(inputs) }
    }

    fn eval(&mut self, t: &Tensor) -> Array {
        let key = Rc::as_ptr(&t.op) as usize;
        if let Some((_, found)) = self.done.get(&key) {
            return found.clone();
        }
        let value = self.compute(t);
        assert_eq!(value.dims, dims_of(&t.shape));
        self.done.insert(key, (t.op.clone(), value.clone()));
        value
    }

    fn convolve(&mut self, x: &Array, weight: &Array, bias: &Option<Array>, w: &Window) -> Array {
        let (o, i, k) = (weight.dims[0], weight.dims[1], weight.dims[2]);
        let length = x.dims[2] + w.before + w.after;
        let steps = (length - w.dilation * (k - 1) - 1) / w.stride + 1;
        let per_group = o / w.groups;
        Array::build(vec![x.dims[0], o, steps], |idx| {
            let group = idx[1] / per_group;
            let mut sum = match bias {
                Some(b) => b.data[idx[1]],
                None => 0.0,
            };
            for c in 0..i {
                for tap in 0..k {
                    let at = idx[2] * w.stride + tap * w.dilation;
                    if at >= w.before && at - w.before < x.dims[2] {
                        sum += weight.at(&[idx[1], c, tap])
                            * x.at(&[idx[0], group * i + c, at - w.before]);
                    }
                }
            }
            sum
        })
    }

    fn compute(&mut self, t: &Tensor) -> Array {
        let dims = dims_of(&t.shape);
        match &*t.op {
            Op::Input(n) => self.inputs[*n].clone(),
            Op::Param(path) => {
                let name = format!("{:?}", path);
                if let Some(values) = self.given.get(&name) {
                    return values.clone();
                }
                let seed = name.bytes().fold(7usize, |a, b| (a * 31 + b as usize) % 9973);
                Array::build(dims.clone(), |idx| {
                    let k = idx.iter().fold(seed, |a, i| (a * 17 + i) % 9967);
                    ((k % 201) as f64 - 100.0) / 2000.0
                })
            }
            Op::Noise(Noise::Duration) => {
                Array::build(dims, |idx| (idx[2] as f64 * 0.25 + 0.1) * self.loudness)
            }
            Op::Noise(Noise::Prior) => {
                Array::build(dims, |idx| (idx[1] + idx[2]) as f64 * 0.01 * self.loudness)
            }
            Op::Zeros => Array::build(dims, |_| 0.0),
            Op::Ones => Array::build(dims, |_| 1.0),
            Op::Arange => Array::build(dims, |idx| idx[0] as f64),
            Op::Unary(op, x) => {
                let x = self.eval(x);
                x.map(|v| match op {
                    UnaryOp::Exp => v.exp(),
                    UnaryOp::Log => v.ln(),
                    UnaryOp::Log1p => v.ln_1p(),
                    UnaryOp::Sqrt => v.sqrt(),
                    UnaryOp::Tanh => v.tanh(),
                    UnaryOp::Sigmoid => 1.0 / (1.0 + (-v).exp()),
                    UnaryOp::Relu => v.max(0.0),
                    UnaryOp::Gelu => v * 0.5 * (1.0 + erf(v / 2f64.sqrt())),
                    UnaryOp::Softplus => (1.0 + v.exp()).ln(),
                    UnaryOp::Ceil => v.ceil(),
                    UnaryOp::Neg => -v,
                    UnaryOp::Abs => v.abs(),
                    UnaryOp::Not => 1.0 - v,
                    UnaryOp::ToFloat => v,
                    UnaryOp::ToInt => v.trunc(),
                })
            }
            Op::Scalar(op, x, value) => {
                let x = self.eval(x);
                let s = scalar(value);
                x.map(|v| match op {
                    ScalarOp::Add => v + s,
                    ScalarOp::Sub => v - s,
                    ScalarOp::SubFrom => s - v,
                    ScalarOp::Mul => v * s,
                    ScalarOp::Div => v / s,
                    ScalarOp::Powi => v.powi(s as i32),
                    ScalarOp::Powf => v.powf(s),
                    ScalarOp::ClampMin => v.max(s),
                    ScalarOp::LeakyRelu => {
                        if v < 0.0 {
                            s * v
                        } else {
                            v
                        }
                    }
                    ScalarOp::GreaterEqual => (v >= s) as usize as f64,
                    ScalarOp::LowerEqual => (v <= s) as usize as f64,
                    ScalarOp::Equal => (v == s) as usize as f64,
                })
            }
            Op::Binary(op, x, y) => {
                let (x, y) = (self.eval(x), self.eval(y));
                Array::build(dims, |idx| {
                    let (a, b) = (x.stretched(idx), y.stretched(idx));
                    match op {
                        BinaryOp::Add => a + b,
                        BinaryOp::Sub => a - b,
                        BinaryOp::Mul => a * b,
                        BinaryOp::Div => a / b,
                        BinaryOp::Lower => (a < b) as usize as f64,
                        BinaryOp::GreaterEqual => (a >= b) as usize as f64,
                        BinaryOp::And => (a != 0.0 && b != 0.0) as usize as f64,
                    }
                })
            }
            Op::Matmul(x, y) => {
                let (x, y) = (self.eval(x), self.eval(y));
                let r = dims.len();
                let inner = x.dims[r - 1];
                Array::build(dims.clone(), |idx| {
                    (0..inner)
                        .map(|k| {
                            x.stretched(&with(idx, r - 1, k)) * y.stretched(&with(idx, r - 2, k))
                        })
                        .sum()
                })
            }
            Op::Reshape(x) => Array { dims, data: self.eval(x).data },
            Op::SwapDims(x, i, j) => {
                let x = self.eval(x);
                Array::build(dims, |idx| x.at(&with(&with(idx, *i, idx[*j]), *j, idx[*i])))
            }
            Op::Flip(x, d) => {
                let x = self.eval(x);
                Array::build(dims.clone(), |idx| x.at(&with(idx, *d, dims[*d] - 1 - idx[*d])))
            }
            Op::Pad(x, d, before, _) => {
                let x = self.eval(x);
                Array::build(dims, |idx| {
                    if idx[*d] >= *before && idx[*d] - before < x.dims[*d] {
                        x.at(&with(idx, *d, idx[*d] - before))
                    } else {
                        0.0
                    }
                })
            }
            Op::Slice(x, d, start, _) => {
                let x = self.eval(x);
                Array::build(dims, |idx| x.at(&with(idx, *d, idx[*d] + start)))
            }
            Op::SliceFill(x, d, at, value) => {
                let x = self.eval(x);
                let s = scalar(value);
                Array::build(dims, |idx| if idx[*d] == *at { s } else { x.at(idx) })
            }
            Op::SliceAssign(x, d, at, y) => {
                let (x, y) = (self.eval(x), self.eval(y));
                Array::build(dims, |idx| {
                    if idx[*d] == *at {
                        y.at(&with(idx, *d, 0))
                    } else {
                        x.at(idx)
                    }
                })
            }
            Op::Cat(x, y, d) => {
                let (x, y) = (self.eval(x), self.eval(y));
                Array::build(dims, |idx| {
                    if idx[*d] < x.dims[*d] {
                        x.at(idx)
                    } else {
                        y.at(&with(idx, *d, idx[*d] - x.dims[*d]))
                    }
                })
            }
            Op::Gather(x, d, ids) => {
                let (x, ids) = (self.eval(x), self.eval(ids));
                let last = x.dims[*d] - 1;
                Array::build(dims, |idx| x.at(&with(idx, *d, (ids.at(idx) as usize).min(last))))
            }
            Op::MaskFill(x, mask, value) => {
                let (x, mask) = (self.eval(x), self.eval(mask));
                let s = scalar(value);
                Array::build(dims, |idx| if mask.stretched(idx) != 0.0 { s } else { x.at(idx) })
            }
            Op::MaskWhere(x, mask, y) => {
                let (x, mask, y) = (self.eval(x), self.eval(mask), self.eval(y));
                Array::build(dims, |idx| {
                    if mask.stretched(idx) != 0.0 {
                        y.at(idx)
                    } else {
                        x.at(idx)
                    }
                })
            }
            Op::SumDim(x, d) => {
                let x = self.eval(x);
                Array::build(dims, |idx| (0..x.dims[*d]).map(|k| x.at(&with(idx, *d, k))).sum())
            }
            Op::Cumsum(x, d) => {
                let x = self.eval(x);
                Array::build(dims, |idx| (0..=idx[*d]).map(|k| x.at(&with(idx, *d, k))).sum())
            }
            Op::Softmax(x, d) => {
                let x = self.eval(x);
                Array::build(dims, |idx| {
                    let row: Vec<f64> = (0..x.dims[*d]).map(|k| x.at(&with(idx, *d, k))).collect();
                    let top = row.iter().cloned().fold(f64::MIN, f64::max);
                    (x.at(idx) - top).exp() / row.iter().map(|v| (v - top).exp()).sum::<f64>()
                })
            }
            Op::Max(x) => {
                let x = self.eval(x);
                Array { dims, data: vec![x.data.iter().cloned().fold(f64::MIN, f64::max)] }
            }
            Op::Triu(x, diagonal) => {
                let x = self.eval(x);
                let r = dims.len();
                Array::build(dims, |idx| {
                    if idx[r - 1] as i64 - idx[r - 2] as i64 >= *diagonal {
                        x.at(idx)
                    } else {
                        0.0
                    }
                })
            }
            Op::Tril(x, diagonal) => {
                let x = self.eval(x);
                let r = dims.len();
                Array::build(dims, |idx| {
                    if idx[r - 1] as i64 - idx[r - 2] as i64 <= *diagonal {
                        x.at(idx)
                    } else {
                        0.0
                    }
                })
            }
            Op::Conv1d { x, weight, bias, window } => {
                let (x, weight) = (self.eval(x), self.eval(weight));
                let bias = bias.as_ref().map(|b| self.eval(b));
                self.convolve(&x, &weight, &bias, window)
            }
            Op::ConvTranspose1d { x, weight, bias, stride, padding, .. } => {
                let (x, weight) = (self.eval(x), self.eval(weight));
                let bias = bias.as_ref().map(|b| self.eval(b));
                Array::build(dims, |idx| {
                    let mut sum = match &bias {
                        Some(b) => b.data[idx[1]],
                        None => 0.0,
                    };
                    for c in 0..weight.dims[0] {
                        for tap in 0..weight.dims[2] {
                            let at = idx[2] + padding;
                            let fits = at >= tap && (at - tap) % stride == 0;
                            if fits && (at - tap) / stride < x.dims[2] {
                                sum += weight.at(&[c, idx[1], tap])
                                    * x.at(&[idx[0], c, (at - tap) / stride]);
                            }
                        }
                    }
                    sum
                })
            }
            Op::Conv2d { x, weight, bias, rows, columns } => {
                let (x, weight) = (self.eval(x), self.eval(weight));
                let bias = bias.as_ref().map(|b| self.eval(b));
                let per_group = weight.dims[0] / rows.groups;
                Array::build(dims, |idx| {
                    let group = idx[1] / per_group;
                    let mut sum = match &bias {
                        Some(b) => b.data[idx[1]],
                        None => 0.0,
                    };
                    for c in 0..weight.dims[1] {
                        for i in 0..weight.dims[2] {
                            for j in 0..weight.dims[3] {
                                let y = idx[2] * rows.stride + i * rows.dilation;
                                let z = idx[3] * columns.stride + j * columns.dilation;
                                let down = y >= rows.before && y - rows.before < x.dims[2];
                                let across = z >= columns.before && z - columns.before < x.dims[3];
                                if down && across {
                                    let channel = group * weight.dims[1] + c;
                                    sum += weight.at(&[idx[1], c, i, j])
                                        * x.at(&[
                                            idx[0],
                                            channel,
                                            y - rows.before,
                                            z - columns.before,
                                        ]);
                                }
                            }
                        }
                    }
                    sum
                })
            }
            Op::LayerNorm { x, gamma, beta } => {
                let (x, gamma, beta) = (self.eval(x), self.eval(gamma), self.eval(beta));
                let r = dims.len();
                let n = dims[r - 1];
                Array::build(dims, |idx| {
                    let row: Vec<f64> = (0..n).map(|k| x.at(&with(idx, r - 1, k))).collect();
                    let mean = row.iter().sum::<f64>() / n as f64;
                    let var = row.iter().map(|v| (v - mean) * (v - mean)).sum::<f64>() / n as f64;
                    (x.at(idx) - mean) / (var + 1e-5).sqrt() * gamma.data[idx[r - 1]]
                        + beta.data[idx[r - 1]]
                })
            }
            Op::Embedding { ids, weight } => {
                let (ids, weight) = (self.eval(ids), self.eval(weight));
                Array::build(dims, |idx| weight.at(&[ids.at(&idx[..2]) as usize, idx[2]]))
            }
            Op::Dropout(x, _) => self.eval(x),
            Op::Guard(x, condition) => {
                assert!(self.eval(condition).data.iter().all(|v| *v != 0.0));
                self.eval(x)
            }
        }
    }
}

fn array(dims: &[usize], data: &[f64]) -> Array {
    assert_eq!(dims.iter().product::<usize>(), data.len());
    Array { dims: dims.to_vec(), data: data.to_vec() }
}

fn numbered(dims: &[usize]) -> Array {
    let count: usize = dims.iter().product();
    Array { dims: dims.to_vec(), data: (0..count).map(|k| k as f64 + 1.0).collect() }
}

fn close(a: &[f64], b: &[f64]) {
    assert_eq!(a.len(), b.len());
    for (x, y) in a.iter().zip(b) {
        assert!((x - y).abs() < 1e-6, "{} is not {}", x, y);
    }
}

fn number(v: f64) -> Real {
    Real::from_bits(v.to_bits())
}

#[test]
fn masks_hold_below_the_lengths() {
    let length = Tensor::input(0, Kind::Int, Shape::D1(3));
    let mask = sequence_mask(length, Some(4), 9);
    let mut e = Evaluator::new(vec![array(&[3], &[0.0, 2.0, 7.0])]);
    assert_eq!(
        e.eval(&mask).data,
        vec![0.0, 0.0, 0.0, 0.0, 1.0, 1.0, 0.0, 0.0, 1.0, 1.0, 1.0, 1.0]
    );
    let length = Tensor::input(0, Kind::Int, Shape::D1(3));
    assert_eq!(sequence_mask(length, None, 9).shape, Shape::D2(3, 9));
}

#[test]
fn frames_follow_the_durations() {
    let duration = Tensor::input(0, Kind::Float, Shape::D3(1, 1, 4));
    let mask = Tensor::input(1, Kind::Float, Shape::D4(1, 1, 7, 4));
    let path = generate_path(duration, mask);
    let mut e = Evaluator::new(vec![
        array(&[1, 1, 4], &[2.0, 0.0, 3.0, 1.0]),
        Array::build(vec![1, 1, 7, 4], |_| 1.0),
    ]);
    let got = e.eval(&path);
    let mut wanted = vec![0.0; 28];
    for (frame, phoneme) in [(0, 0), (1, 0), (2, 2), (3, 2), (4, 2), (5, 3)] {
        wanted[frame * 4 + phoneme] = 1.0;
    }
    assert_eq!(got.data, wanted);
    for frame in 0..6 {
        assert_eq!(got.data[frame * 4..frame * 4 + 4].iter().sum::<f64>(), 1.0);
    }
}

#[test]
fn masks_of_several_layers_share_the_path() {
    let duration = Tensor::input(0, Kind::Float, Shape::D3(2, 1, 2));
    let mask = Tensor::input(1, Kind::Float, Shape::D4(2, 3, 3, 2));
    let path = generate_path(duration, mask);
    let mut e = Evaluator::new(vec![
        array(&[2, 1, 2], &[1.0, 2.0, 2.0, 1.0]),
        Array::build(vec![2, 3, 3, 2], |i| i[1] as f64),
    ]);
    let got = e.eval(&path);
    for layer in 0..3 {
        let k = layer as f64;
        assert_eq!(&got.data[layer * 6..layer * 6 + 6], &[k, 0.0, 0.0, k, 0.0, k]);
        assert_eq!(&got.data[18 + layer * 6..24 + layer * 6], &[k, 0.0, k, 0.0, 0.0, k]);
    }
}

/// The norms of whole filters, as the magnitudes of a layer.
fn norms(v: &Array) -> Array {
    let size = v.data.len() / v.dims[0];
    Array::build(vec![v.dims[0], 1, 1, 1], |i| {
        v.data[i[0] * size..(i[0] + 1) * size].iter().map(|a| a * a).sum::<f64>().sqrt()
    })
}

#[test]
fn fresh_convolutions_in_two_dimensions_are_plain() {
    for (kernel, groups) in [([5, 1], 1), ([3, 2], 2)] {
        let mut config = WNConv2dConfig::new([2, 4], kernel)
            .with_stride([2, 1])
            .with_padding(PaddingConfig2d::Explicit(2, 0, 2, 0));
        config.groups = groups;
        let conv = config.init(&Path::Root);
        let x = Tensor::input(0, Kind::Float, Shape::D4(2, 2, 7, 3));
        let y = conv.forward(x);
        let mut e = Evaluator::new(vec![Array::build(vec![2, 2, 7, 3], |i| {
            ((i[0] * 5 + i[1] * 3 + i[2] * 7 + i[3]) % 11) as f64 - 4.0
        })]);
        let v = e.eval(&conv.weight_v.value());
        e.given.insert(format!("{:?}", conv.weight_g.path), norms(&v));
        let bias = conv.bias.as_ref().map(|b| e.eval(&b.value())).unwrap();
        let got = e.eval(&y);
        let x = e.inputs[0].clone();
        let width = 2 / groups;
        let wanted = Array::build(got.dims.clone(), |i| {
            let mut sum = bias.data[i[1]];
            for c in 0..width {
                for a in 0..kernel[0] {
                    for b in 0..kernel[1] {
                        let row = i[2] * 2 + a;
                        if row >= 2 && row - 2 < 7 {
                            let channel = i[1] / (4 / groups) * width + c;
                            sum += v.at(&[i[1], c, a, b]) * x.at(&[i[0], channel, row - 2, i[3] + b]);
                        }
                    }
                }
            }
            sum
        });
        assert!(got.data.iter().any(|a| a.abs() > 0.1));
        close(&got.data, &wanted.data);
    }
}

#[test]
fn magnitudes_scale_whole_filters() {
    let mut config = WNConv2dConfig::new([1, 2], [5, 1]);
    config.bias = false;
    let conv = config.init(&Path::Root);
    let y = conv.forward(Tensor::input(0, Kind::Float, Shape::D4(1, 1, 5, 1)));
    let mut e = Evaluator::new(vec![array(&[1, 1, 5, 1], &[1.0, 0.0, 0.0, 0.0, 0.0])]);
    let v = [3.0, 0.0, 4.0, 0.0, 0.0, 0.0, 1.0, 2.0, 2.0, 0.0];
    e.given.insert(format!("{:?}", conv.weight_v.path), array(&[2, 1, 5, 1], &v));
    e.given.insert(format!("{:?}", conv.weight_g.path), array(&[2, 1, 1, 1], &[10.0, 6.0]));
    close(&e.eval(&y).data, &[6.0, 0.0]);
}

#[test]
fn a_masked_frame_belongs_to_nothing() {
    let duration = Tensor::input(0, Kind::Float, Shape::D3(1, 1, 2));
    let mask = Tensor::input(1, Kind::Float, Shape::D4(1, 1, 3, 2));
    let path = generate_path(duration, mask);
    let mut e = Evaluator::new(vec![
        array(&[1, 1, 2], &[1.0, 2.0]),
        array(&[1, 1, 3, 2], &[1.0, 1.0, 0.0, 0.0, 1.0, 1.0]),
    ]);
    assert_eq!(e.eval(&path).data, vec![1.0, 0.0, 0.0, 0.0, 0.0, 1.0]);
}

#[test]
fn relative_scores_move_to_their_keys() {
    let x = Tensor::input(0, Kind::Float, Shape::D4(1, 2, 3, 5));
    let y = MultiHeadAttention::_relative_position_to_absolute_position(x);
    let given = numbered(&[1, 2, 3, 5]);
    let mut e = Evaluator::new(vec![given.clone()]);
    let got = e.eval(&y);
    for h in 0..2 {
        for i in 0..3 {
            for j in 0..3 {
                assert_eq!(got.at(&[0, h, i, j]), given.at(&[0, h, i, j + 2 - i]));
            }
        }
    }
}

#[test]
fn weights_by_relative_position_come_back() {
    let x = Tensor::input(0, Kind::Float, Shape::D4(2, 1, 4, 4));
    let relative = MultiHeadAttention::_absolute_position_to_relative_position(x);
    let given = numbered(&[2, 1, 4, 4]);
    let mut e = Evaluator::new(vec![given.clone()]);
    let got = e.eval(&relative);
    for i in 0..4usize {
        for k in 0..7usize {
            let key = i as i64 + k as i64 - 3;
            let wanted = if (0..4).contains(&key) {
                given.at(&[1, 0, i, key as usize])
            } else {
                0.0
            };
            assert_eq!(got.at(&[1, 0, i, k]), wanted);
        }
    }
    let back = MultiHeadAttention::_relative_position_to_absolute_position(relative);
    assert_eq!(e.eval(&back).data, given.data);
}

#[test]
fn relative_embeddings_are_cut_or_padded() {
    let config = MultiHeadAttentionConfig::new(4, 4, 2).with_window_size(Some(2));
    let attention = config.init(&Path::Root);
    let given = numbered(&[1, 5, 2]);
    let mut e = Evaluator::new(vec![given.clone()]);
    let table = Tensor::input(0, Kind::Float, Shape::D3(1, 5, 2));
    let near = attention._get_relative_embeddings(table.clone(), 2);
    assert_eq!(e.eval(&near).data, vec![3.0, 4.0, 5.0, 6.0, 7.0, 8.0]);
    let far = attention._get_relative_embeddings(table, 4);
    assert_eq!(
        e.eval(&far).data,
        vec![0.0, 0.0, 1.0, 2.0, 3.0, 4.0, 5.0, 6.0, 7.0, 8.0, 9.0, 10.0, 0.0, 0.0]
    );
}

#[test]
fn the_proximal_bias_falls_with_the_distance() {
    let bias = MultiHeadAttention::_attention_bias_proximal(3);
    let got = Evaluator::new(vec![]).eval(&bias);
    assert_eq!(got.dims, vec![1, 1, 3, 3]);
    close(&got.data[..3], &[0.0, -(2f64.ln()), -(3f64.ln())]);
}

#[test]
fn attention_weights_sum_to_one() {
    let config = MultiHeadAttentionConfig::new(4, 6, 2).with_window_size(Some(1));
    let attention = config.init(&Path::Root);
    let q = Tensor::input(0, Kind::Float, Shape::D3(1, 4, 5));
    let (x, weights) = attention.attention(q.clone(), q.clone(), q, None);
    assert_eq!(x.shape, Shape::D3(1, 4, 5));
    let mut e = Evaluator::new(vec![numbered(&[1, 4, 5]).map(|v| v / 20.0)]);
    let got = e.eval(&weights);
    for row in got.data.chunks(5) {
        close(&[row.iter().sum::<f64>()], &[1.0]);
    }
    e.eval(&x);
}

#[test]
fn masked_keys_are_not_attended_to() {
    let attention = MultiHeadAttentionConfig::new(2, 2, 1).init(&Path::Root);
    let q = Tensor::input(0, Kind::Float, Shape::D3(1, 2, 3));
    let mask = Tensor::input(1, Kind::Float, Shape::D4(1, 1, 3, 3));
    let (_, weights) = attention.attention(q.clone(), q.clone(), q, Some(mask));
    let mut e = Evaluator::new(vec![
        numbered(&[1, 2, 3]),
        array(&[1, 1, 3, 3], &[1.0, 1.0, 0.0, 1.0, 1.0, 0.0, 1.0, 1.0, 0.0]),
    ]);
    for row in e.eval(&weights).data.chunks(3) {
        assert_eq!(row[2], 0.0);
    }
}

#[test]
fn a_feed_forward_layer_keeps_the_length() {
    let layer = FFNConfig::new(3, 2, 5, 3).init(&Path::Root);
    let x = Tensor::input(0, Kind::Float, Shape::D3(1, 3, 4));
    let mask = Tensor::input(1, Kind::Float, Shape::D3(1, 1, 4));
    let y = layer.forward(x, mask);
    let mut e = Evaluator::new(vec![
        numbered(&[1, 3, 4]),
        array(&[1, 1, 4], &[1.0, 1.0, 1.0, 0.0]),
    ]);
    let got = e.eval(&y);
    assert_eq!(got.dims, vec![1, 2, 4]);
    assert_eq!(got.at(&[0, 0, 3]), 0.0);
    assert_eq!(got.at(&[0, 1, 3]), 0.0);
}

#[test]
fn gates_multiply_the_halves() {
    let a = Tensor::input(0, Kind::Float, Shape::D3(1, 2, 1));
    let b = Tensor::input(1, Kind::Float, Shape::D3(1, 2, 1));
    let gated = fused_add_tanh_sigmoid_multiply(a, b, 1);
    let mut e = Evaluator::new(vec![
        array(&[1, 2, 1], &[0.5, -1.0]),
        array(&[1, 2, 1], &[0.25, 3.0]),
    ]);
    close(&e.eval(&gated).data, &[0.75f64.tanh() / (1.0 + (-2f64).exp())]);
}

#[test]
fn flips_reverse_the_channels_and_undo_themselves() {
    let x = Tensor::input(0, Kind::Float, Shape::D3(1, 3, 2));
    let (once, none) = Flip {}.forward(x, false);
    assert!(matches!(none, Single::Zero));
    let mut e = Evaluator::new(vec![numbered(&[1, 3, 2])]);
    assert_eq!(e.eval(&once).data, vec![5.0, 6.0, 3.0, 4.0, 1.0, 2.0]);
    let (twice, _) = Flip {}.forward(once, true);
    assert_eq!(e.eval(&twice).data, vec![1.0, 2.0, 3.0, 4.0, 5.0, 6.0]);
}

#[test]
fn logarithms_have_a_floor() {
    let x = Tensor::input(0, Kind::Float, Shape::D3(1, 1, 3));
    let mask = Tensor::input(1, Kind::Float, Shape::D3(1, 1, 3));
    let (y, logdet) = Log {}.forward(x, mask.clone(), false);
    let mut e = Evaluator::new(vec![
        array(&[1, 1, 3], &[0.0, 2.0, 5.0]),
        array(&[1, 1, 3], &[1.0, 1.0, 0.0]),
    ]);
    let logs = [1e-5f64.ln(), 2f64.ln(), 0.0];
    close(&e.eval(&y).data, &logs);
    match logdet {
        Single::First(sum) => close(&e.eval(&sum).data, &[-(logs[0] + logs[1])]),
        Single::Zero => panic!("the sum of the logarithms is missing"),
    }
    let (back, none) = Log {}.forward(y, mask, true);
    assert!(matches!(none, Single::Zero));
    close(&e.eval(&back).data, &[1e-5, 2.0, 0.0]);
}

#[test]
fn shifts_and_scales_undo_themselves() {
    let layer = ElementwiseAffineConfig::new(2).init(&Path::Root);
    let x = Tensor::input(0, Kind::Float, Shape::D3(2, 2, 3));
    let mask = Tensor::input(1, Kind::Float, Shape::D3(2, 1, 3));
    let (y, logdet) = layer.forward(x, mask.clone(), false);
    assert!(matches!(logdet, Single::First(_)));
    let (back, none) = layer.forward(y.clone(), mask, true);
    assert!(matches!(none, Single::Zero));
    let given = numbered(&[2, 2, 3]);
    let mut e = Evaluator::new(vec![given.clone(), Array::build(vec![2, 1, 3], |_| 1.0)]);
    assert!((e.eval(&y).data[0] - given.data[0]).abs() > 1e-3);
    close(&e.eval(&back).data, &given.data);
}

#[test]
fn coupling_layers_undo_themselves() {
    for mean_only in [true, false] {
        let layer = ResidualCouplingLayerConfig::new(4, 3, 5, 1, 2)
            .with_mean_only(mean_only)
            .init(&Path::Root);
        let x = Tensor::input(0, Kind::Float, Shape::D3(2, 4, 3));
        let mask = Tensor::input(1, Kind::Float, Shape::D3(2, 1, 3));
        let (y, _) = layer.forward(x, mask.clone(), None, false);
        let (back, _) = layer.forward(y.clone(), mask, None, true);
        let given = numbered(&[2, 4, 3]);
        let mut e = Evaluator::new(vec![given.clone(), Array::build(vec![2, 1, 3], |_| 1.0)]);
        assert!((e.eval(&y).data[6] - given.data[6]).abs() > 1e-6);
        close(&e.eval(&back).data, &given.data);
    }
}

#[test]
fn coupling_blocks_undo_themselves() {
    let block = ResidualCouplingBlockConfig::new(4, 3, 5, 1, 2, 0).init(&Path::Root);
    let x = Tensor::input(0, Kind::Float, Shape::D3(2, 4, 3));
    let mask = Tensor::input(1, Kind::Float, Shape::D3(2, 1, 3));
    let there = block.forward(x, mask.clone(), None, false);
    let back = block.forward(there.clone(), mask, None, true);
    let hold = array(&[2, 1, 3], &[1.0, 1.0, 1.0, 1.0, 1.0, 0.0]);
    let given = numbered(&[2, 4, 3]);
    let given = Array::build(vec![2, 4, 3], |i| given.at(i) * hold.at(&[i[0], 0, i[2]]));
    let mut e = Evaluator::new(vec![given.clone(), hold]);
    assert!((e.eval(&there).data[6] - given.data[6]).abs() > 1e-6);
    close(&e.eval(&back).data, &given.data);
}

#[test]
fn unmasked_signals_come_back_where_the_mask_is_one() {
    let hold = array(&[2, 1, 3], &[1.0, 1.0, 0.0, 1.0, 0.0, 1.0]);
    let given = numbered(&[2, 4, 3]);
    let x = Tensor::input(0, Kind::Float, Shape::D3(2, 4, 3));
    let mask = Tensor::input(1, Kind::Float, Shape::D3(2, 1, 3));
    for mean_only in [true, false] {
        let layer = ResidualCouplingLayerConfig::new(4, 3, 5, 1, 2)
            .with_mean_only(mean_only)
            .init(&Path::Root);
        let (y, _) = layer.forward(x.clone(), mask.clone(), None, false);
        let (back, _) = layer.forward(y, mask.clone(), None, true);
        let wanted = Array::build(vec![2, 4, 3], |i| {
            let kept = if i[1] < 2 { 1.0 } else { hold.at(&[i[0], 0, i[2]]) };
            given.at(i) * kept
        });
        let mut e = Evaluator::new(vec![given.clone(), hold.clone()]);
        close(&e.eval(&back).data, &wanted.data);
    }
    let block = ResidualCouplingBlockConfig::new(4, 3, 5, 1, 2, 0).init(&Path::Root);
    let there = block.forward(x, mask.clone(), None, false);
    let back = block.forward(there, mask, None, true);
    let mut e = Evaluator::new(vec![given.clone(), hold.clone()]);
    let masked = |a: &Array| {
        Array::build(vec![2, 4, 3], |i| a.at(i) * hold.at(&[i[0], 0, i[2]])).data
    };
    close(&masked(&e.eval(&back)), &masked(&given));
}

#[test]
fn gated_stacks_keep_the_shape() {
    let stack = WNConfig::new(3, 3, 2, 3).with_gin_channels(2).init(&Path::Root);
    let x = Tensor::input(0, Kind::Float, Shape::D3(1, 3, 5));
    let mask = Tensor::input(1, Kind::Float, Shape::D3(1, 1, 5));
    let g = Tensor::input(2, Kind::Float, Shape::D3(1, 2, 1));
    let with_g = stack.forward(x.clone(), mask.clone(), Some(g));
    let without = stack.forward(x, mask, None);
    let mut e = Evaluator::new(vec![
        numbered(&[1, 3, 5]),
        Array::build(vec![1, 1, 5], |_| 1.0),
        numbered(&[1, 2, 1]),
    ]);
    let a = e.eval(&with_g);
    let b = e.eval(&without);
    assert_eq!(a.dims, vec![1, 3, 5]);
    assert!(a.data != b.data);
}

#[test]
fn the_bin_of_an_input_is_found() {
    let edges = Tensor::input(0, Kind::Float, Shape::D2(4, 3));
    let inputs = Tensor::input(1, Kind::Float, Shape::D1(4));
    let found = searchsorted(edges, inputs, 1e-6f64.to_bits());
    let mut e = Evaluator::new(vec![
        array(&[4, 3], &[0.0, 1.0, 2.0, 0.0, 1.0, 2.0, 0.0, 1.0, 2.0, 0.0, 1.0, 2.0]),
        array(&[4], &[0.0, 0.5, 1.0, 2.0]),
    ]);
    assert_eq!(e.eval(&found).data, vec![0.0, 0.0, 1.0, 1.0]);
}

fn spline_inputs(inputs: &[f64]) -> Evaluator {
    let n = inputs.len();
    Evaluator::new(vec![
        array(&[1, 1, n], inputs),
        Array::build(vec![1, 1, n, 4], |i| ((i[2] * 7 + i[3] * 3) % 5) as f64 * 0.3),
        Array::build(vec![1, 1, n, 4], |i| ((i[2] * 7 + i[3] * 2) % 5) as f64 * 0.2),
        Array::build(vec![1, 1, n, 3], |i| ((i[2] * 7 + i[3]) % 3) as f64 * 0.4),
    ])
}

fn spline_tensors(n: usize) -> (Tensor, Tensor, Tensor) {
    (
        Tensor::input(1, Kind::Float, Shape::D4(1, 1, n, 4)),
        Tensor::input(2, Kind::Float, Shape::D4(1, 1, n, 4)),
        Tensor::input(3, Kind::Float, Shape::D4(1, 1, n, 3)),
    )
}

#[test]
fn splines_undo_themselves() {
    let inputs = [-5.0, -4.9, -1.0, 0.0, 0.3, 3.0, 4.9];
    let n = inputs.len();
    let (w, h, d) = spline_tensors(n);
    let x = Tensor::input(0, Kind::Float, Shape::D3(1, 1, n));
    let linear = Some("linear");
    let (y, there) = piecewise_rational_quadratic_transform(
        x,
        w.clone(),
        h.clone(),
        d.clone(),
        false,
        linear,
        number(5.0),
    );
    let (back, again) =
        piecewise_rational_quadratic_transform(y.clone(), w, h, d, true, linear, number(5.0));
    let mut e = spline_inputs(&inputs);
    assert!((e.eval(&y).data[2] - -1.0).abs() > 1e-3);
    close(&e.eval(&back).data, &inputs);
    let slopes = e.eval(&there);
    close(&e.eval(&again).data, &slopes.data);
}

#[test]
fn slopes_beyond_those_of_the_edges_are_not_looked_at() {
    let x = Tensor::input(0, Kind::Float, Shape::D1(2));
    let sizes = Tensor::input(1, Kind::Float, Shape::D2(2, 3));
    let bounds = SplineBox {
        left: Scalar::literal(0),
        right: Scalar::literal(1f64.to_bits()),
        bottom: Scalar::literal(0),
        top: Scalar::literal(1f64.to_bits()),
        min_bin_width: number(1e-3),
        min_bin_height: number(1e-3),
        min_derivative: number(1e-3),
    };
    let mut values = |columns: usize| {
        let slopes = Tensor::input(2, Kind::Float, Shape::D2(2, columns));
        let (y, _) = rational_quadratic_spline(
            x.clone(),
            sizes.clone(),
            sizes.clone(),
            slopes,
            false,
            &bounds,
        );
        let mut e = Evaluator::new(vec![
            array(&[2], &[0.3, 0.9]),
            numbered(&[2, 3]),
            Array::build(vec![2, columns], |i| (i[0] + i[1]) as f64 * 0.5),
        ]);
        e.eval(&y).data
    };
    let exact = values(4);
    assert!(exact[0] < exact[1] && 0.0 < exact[0] && exact[1] < 1.0);
    assert_eq!(values(6), exact);
}

#[test]
fn splines_rise() {
    let inputs = [-5.0, -4.0, -2.5, -0.7, 0.0, 1.1, 2.0, 3.5, 5.0];
    let n = inputs.len();
    let (w, h, d) = spline_tensors(n);
    let x = Tensor::input(0, Kind::Float, Shape::D3(1, 1, n));
    let (y, _) =
        piecewise_rational_quadratic_transform(x, w, h, d, false, Some("linear"), number(5.0));
    let mut e = Evaluator::new(vec![
        array(&[1, 1, n], &inputs),
        Array::build(vec![1, 1, n, 4], |i| i[3] as f64 * 0.3),
        Array::build(vec![1, 1, n, 4], |i| (i[3] * 2 % 5) as f64 * 0.2),
        Array::build(vec![1, 1, n, 3], |i| i[3] as f64 * 0.4),
    ]);
    let got = e.eval(&y);
    assert!(got.data.windows(2).all(|pair| pair[0] < pair[1]));
    close(&[got.data[0], got.data[n - 1]], &[-5.0, 5.0]);
}

#[test]
fn splines_without_smallest_sizes_undo_themselves() {
    let nothing = number(0.0);
    let bounds = SplineBox {
        left: Scalar::literal((-2f64).to_bits()),
        right: Scalar::literal(2f64.to_bits()),
        bottom: Scalar::literal((-1f64).to_bits()),
        top: Scalar::literal(3f64.to_bits()),
        min_bin_width: nothing,
        min_bin_height: nothing,
        min_derivative: nothing,
    };
    let inputs = [-2.0, -1.3, -0.4, 0.0, 0.9, 1.99, 2.0];
    let n = inputs.len();
    let x = Tensor::input(0, Kind::Float, Shape::D1(n));
    let w = Tensor::input(1, Kind::Float, Shape::D2(n, 3));
    let h = Tensor::input(2, Kind::Float, Shape::D2(n, 3));
    let d = Tensor::input(3, Kind::Float, Shape::D2(n, 4));
    let (y, _) =
        rational_quadratic_spline(x, w.clone(), h.clone(), d.clone(), false, &bounds);
    let (back, _) = rational_quadratic_spline(y.clone(), w, h, d, true, &bounds);
    let mut e = Evaluator::new(vec![
        array(&[n], &inputs),
        Array::build(vec![n, 3], |i| (i[1] * 2 % 3) as f64 * 0.7),
        Array::build(vec![n, 3], |i| i[1] as f64 * 0.5),
        Array::build(vec![n, 4], |i| i[1] as f64 * 0.6 - 1.0),
    ]);
    let there = e.eval(&y);
    assert!(there.data.windows(2).all(|pair| pair[0] < pair[1]));
    close(&[there.data[0], there.data[n - 1]], &[-1.0, 3.0]);
    close(&e.eval(&back).data, &inputs);
}

#[test]
fn splines_leave_the_tails() {
    let inputs = [-7.0, 0.3, 12.5];
    let (w, h, d) = spline_tensors(3);
    let x = Tensor::input(0, Kind::Float, Shape::D3(1, 1, 3));
    let (y, logabsdet) =
        piecewise_rational_quadratic_transform(x, w, h, d, false, Some("linear"), number(5.0));
    let mut e = spline_inputs(&inputs);
    let got = e.eval(&y);
    assert_eq!(got.data[0], -7.0);
    assert_eq!(got.data[2], 12.5);
    let slopes = e.eval(&logabsdet);
    assert_eq!(slopes.data[0], 0.0);
    assert!(slopes.data[1] != 0.0);
    assert_eq!(slopes.data[2], 0.0);
}

#[test]
fn slopes_of_splines_match_their_differences() {
    let inputs = [-2.0, 0.4, 1.7];
    let step = 1e-5;
    let moved: Vec<f64> = inputs.iter().map(|v| v + step).collect();
    let (w, h, d) = spline_tensors(3);
    let x = Tensor::input(0, Kind::Float, Shape::D3(1, 1, 3));
    let (y, logabsdet) = unconstrained_rational_quadratic_spline(
        x,
        w,
        h,
        d,
        false,
        number(1e-3),
        number(1e-3),
        number(1e-3),
        Some("linear"),
        number(5.0),
    );
    let at = spline_inputs(&inputs).eval(&y);
    let beyond = spline_inputs(&moved).eval(&y);
    let negated = spline_inputs(&inputs).eval(&logabsdet);
    for i in 0..3 {
        let slope = (beyond.data[i] - at.data[i]) / step;
        assert!((slope.ln() + negated.data[i]).abs() < 1e-3);
    }
}

#[test]
fn splines_between_zero_and_one_keep_the_ends() {
    let x = Tensor::input(0, Kind::Float, Shape::D3(1, 1, 2));
    let w = Tensor::input(1, Kind::Float, Shape::D4(1, 1, 2, 3));
    let h = Tensor::input(2, Kind::Float, Shape::D4(1, 1, 2, 3));
    let d = Tensor::input(3, Kind::Float, Shape::D4(1, 1, 2, 4));
    let (y, _) = piecewise_rational_quadratic_transform(x, w, h, d, false, None, number(5.0));
    let mut e = Evaluator::new(vec![
        array(&[1, 1, 2], &[0.0, 1.0]),
        numbered(&[1, 1, 2, 3]),
        numbered(&[1, 1, 2, 3]),
        numbered(&[1, 1, 2, 4]),
    ]);
    close(&e.eval(&y).data, &[0.0, 1.0]);
}

#[test]
fn phonemes_past_the_length_are_not_heard() {
    let encoder = TextEncoderConfig::new(9, 4, 4, 6, 2, 2, 3, number(0.1)).init(&Path::Root);
    let ids = Tensor::input(0, Kind::Int, Shape::D2(2, 5));
    let lengths = Tensor::input(1, Kind::Int, Shape::D1(2));
    let (x, m, logs, mask) = encoder.forward(ids, lengths);
    let given = |ids: &[f64]| {
        Evaluator::new(vec![array(&[2, 5], ids), array(&[2], &[3.0, 5.0])])
    };
    let mut one = given(&[1.0, 8.0, 2.0, 0.0, 0.0, 3.0, 3.0, 4.0, 5.0, 6.0]);
    let mut other = given(&[1.0, 8.0, 2.0, 7.0, 5.0, 3.0, 3.0, 4.0, 5.0, 6.0]);
    let mut heard = given(&[1.0, 8.0, 6.0, 0.0, 0.0, 3.0, 3.0, 4.0, 5.0, 6.0]);
    let held = one.eval(&mask);
    assert_eq!(held.dims, vec![2, 1, 5]);
    assert_eq!(held.data, vec![1.0, 1.0, 1.0, 0.0, 0.0, 1.0, 1.0, 1.0, 1.0, 1.0]);
    assert_eq!(other.eval(&mask).data, held.data);
    for part in [&x, &m, &logs] {
        let values = one.eval(part);
        close(&other.eval(part).data, &values.data);
        assert!(heard.eval(part).data != values.data);
        for c in 0..4 {
            assert_eq!(values.at(&[0, c, 3]), 0.0);
            assert_eq!(values.at(&[0, c, 4]), 0.0);
            assert!(values.at(&[1, c, 4]) != 0.0);
        }
    }
}

fn small_config() -> VitsConfig {
    let mut config = VitsConfig::new()
        .with_upsample_rates(vec![4, 2])
        .with_upsample_kernel_sizes(vec![8, 4])
        .with_upsample_initial_channel(8)
        .with_resblock_kernel_sizes(vec![3, 5])
        .with_resblock_dilation_sizes(vec![vec![1, 2], vec![2, 6]]);
    config.hop_length = 8;
    config.inter_channels = 4;
    config.hidden_channels = 4;
    config.filter_channels = 6;
    config.n_layers = 1;
    config.num_symbols = 11;
    config
}

#[test]
fn a_small_voice_speaks() {
    let (model, speaks) = small_config().checked_init(&Path::Root).unwrap();
    assert!(speaks);
    let network = &model.model_g;
    assert!(network.accepts_length(3));
    let ids = Tensor::input(0, Kind::Int, Shape::D2(1, 3));
    let lengths = Tensor::input(1, Kind::Int, Shape::D1(1));
    let prediction = network.predict(ids.clone(), lengths.clone(), number(1.5), number(0.8));
    let mut e =
        Evaluator::new(vec![array(&[1, 3], &[1.0, 9.0, 4.0]), array(&[1], &[3.0])]);
    let frames = e.eval(&longest_of(&prediction.y_lengths)).data[0] as usize;
    let total: f64 = e.eval(&prediction.w_ceil).data.iter().sum();
    assert_eq!(frames, total as usize);
    assert!(network.accepts_frames(3, frames, None));
    let samples = network.decode(&prediction, frames, number(0.667), None);
    assert_eq!(samples.shape, Shape::D3(1, 1, frames * 8));
    let wav = e.eval(&samples);
    assert!(wav.data.iter().all(|v| v.abs() <= 1.0));
    let at_once = model.forward(
        ids,
        lengths,
        number(0.667),
        number(1.5),
        number(0.8),
        None,
        Some(1),
        frames,
    );
    assert_eq!(at_once.shape, Shape::D3(1, 1, 2 * 8));
    close(&e.eval(&at_once).data[..8], &wav.data[..8]);
}

#[test]
fn a_sentence_is_spoken_in_two_steps() {
    let (model, _) = small_config().checked_init(&Path::Root).unwrap();
    let scales = Scales {
        noise_scale: number(0.667),
        length_scale: number(1.0),
        noise_scale_w: number(0.8),
    };
    let sentence = Sentence::begin(&model, 3, &scales).unwrap();
    let mut e = Evaluator::new(vec![array(&[1, 3], &[1.0, 9.0, 4.0]), array(&[1], &[3.0])]);
    let frames = e.eval(&sentence.frames).data[0] as usize;
    let samples = sentence.finish(&model, frames, &scales).unwrap();
    let at_once = model.forward(
        Tensor::input(0, Kind::Int, Shape::D2(1, 3)),
        Tensor::input(1, Kind::Int, Shape::D1(1)),
        scales.noise_scale,
        scales.length_scale,
        scales.noise_scale_w,
        None,
        None,
        frames,
    );
    assert_eq!(e.eval(&samples).data.len(), frames * 8);
    close(&e.eval(&at_once).data, &e.eval(&samples).data);
    assert_eq!(Sentence::begin(&model, 1, &scales).unwrap_err(), SpeechError::Phonemes);
    assert_eq!(sentence.finish(&model, 0, &scales).unwrap_err(), SpeechError::Frames);
    assert_eq!(sentence.finish(&model, usize::MAX, &scales).unwrap_err(), SpeechError::Frames);
}

#[test]
fn silent_voices_always_say_the_same() {
    let (model, _) = small_config().checked_init(&Path::Root).unwrap();
    let inputs = vec![array(&[1, 3], &[1.0, 9.0, 4.0]), array(&[1], &[3.0])];
    let say = |scale: f64, e: &mut Evaluator| {
        let samples = model.forward(
            Tensor::input(0, Kind::Int, Shape::D2(1, 3)),
            Tensor::input(1, Kind::Int, Shape::D1(1)),
            number(scale),
            number(2.0),
            number(scale),
            None,
            None,
            6,
        );
        e.eval(&samples).data
    };
    let quiet = say(0.0, &mut Evaluator::new(inputs.clone()));
    assert_eq!(say(0.0, &mut Evaluator::louder(inputs.clone())), quiet);
    let noisy = say(1.0, &mut Evaluator::new(inputs.clone()));
    assert!(say(1.0, &mut Evaluator::louder(inputs)) != noisy);
}

#[test]
fn predictors_with_one_spline_layer_take_several_rows() {
    let config = StochasticDurationPredictorConfig::new(3, 2, 3, number(0.5), 1, 0);
    let predictor = config.init(&Path::Root);
    assert!(predictor.accepts(2, 1) && predictor.accepts(2, 4) && !predictor.accepts(2, 0));
    let deeper = StochasticDurationPredictorConfig::new(3, 2, 3, number(0.5), 2, 0);
    let deeper = deeper.init(&Path::Root);
    assert!(deeper.accepts(1, 2) && !deeper.accepts(2, 2) && !deeper.accepts(1, 1));
    let logw = predictor.forward(
        Tensor::input(0, Kind::Float, Shape::D3(2, 3, 4)),
        Tensor::input(1, Kind::Float, Shape::D3(2, 1, 4)),
        None,
        None,
        true,
        number(0.8),
    );
    assert_eq!(logw.shape, Shape::D3(2, 1, 4));
    let hold = [1.0, 1.0, 1.0, 0.0, 1.0, 1.0, 0.0, 0.0];
    let mut e = Evaluator::new(vec![numbered(&[2, 3, 4]), array(&[2, 1, 4], &hold)]);
    let got = e.eval(&logw);
    for (v, k) in got.data.iter().zip(hold) {
        assert_eq!(*v == 0.0, k == 0.0);
    }
    let one = predictor.forward(
        Tensor::input(0, Kind::Float, Shape::D3(2, 3, 1)),
        Tensor::input(1, Kind::Float, Shape::D3(2, 1, 1)),
        None,
        None,
        true,
        number(0.8),
    );
    assert_eq!(one.shape, Shape::D3(2, 1, 1));
}

#[test]
fn spline_layers_keep_their_first_channel() {
    let layer = ConvFlowConfig::new(2, 3, 3, 2).init(&Path::Root);
    let x = Tensor::input(0, Kind::Float, Shape::D3(1, 2, 4));
    let mask = Tensor::input(1, Kind::Float, Shape::D3(1, 1, 4));
    let given = array(&[1, 2, 4], &[0.5, -3.0, 20.0, 1.0, -1.5, 0.25, 4.0, 2.0]);
    let hold = [1.0, 1.0, 1.0, 0.0];
    let (y, logdet) = layer.forward(x, mask.clone(), None, false);
    assert!(matches!(logdet, Single::First(_)));
    let (back, none) = layer.forward(y.clone(), mask, None, true);
    assert!(matches!(none, Single::Zero));
    let mut e = Evaluator::new(vec![given.clone(), array(&[1, 1, 4], &hold)]);
    let there = e.eval(&y);
    assert_eq!(&there.data[..4], &[0.5, -3.0, 20.0, 0.0]);
    assert!((there.data[4] - -1.5).abs() > 1e-4);
    let wanted = Array::build(vec![1, 2, 4], |i| given.at(i) * hold[i[2]]);
    close(&e.eval(&back).data, &wanted.data);
    let far = array(&[1, 2, 4], &[0.5, -3.0, 20.0, 1.0, -1.5, 0.25, 9.0, -7.0]);
    let mut e = Evaluator::new(vec![far, array(&[1, 1, 4], &hold)]);
    let there = e.eval(&y);
    assert_eq!(&there.data[6..], &[9.0, 0.0]);
}

#[test]
fn samples_go_to_a_file() {
    assert_eq!(output_path(None), "output.wav");
    assert_eq!(output_path(Some("a.wav".to_string())), "a.wav");
}

#[test]
fn the_length_scale_slows_speech_down() {
    let (model, _) = small_config().checked_init(&Path::Root).unwrap();
    let count = |scale: f64| {
        let prediction = model.model_g.predict(
            Tensor::input(0, Kind::Int, Shape::D2(1, 4)),
            Tensor::input(1, Kind::Int, Shape::D1(1)),
            number(scale),
            number(0.8),
        );
        let mut e =
            Evaluator::new(vec![array(&[1, 4], &[1.0, 2.0, 3.0, 4.0]), array(&[1], &[4.0])]);
        e.eval(&prediction.y_lengths).data[0]
    };
    assert!(count(3.0) > count(1.0));
    assert_eq!(count(0.0), 1.0);
}

pub mod alike;
pub mod attention;
pub mod conv;
pub mod coupling;
pub mod curve;
pub mod decoder;
pub mod discriminator;
pub mod draws;
pub mod durations;
pub mod element;
pub mod encoder;
pub mod encoding;
pub mod flow;
pub mod gates;
pub mod generator;
pub mod heads;
pub mod id_map;
pub mod inverse;
pub mod json;
pub mod knots;
pub mod latents;
pub mod lengths;
pub mod limits;
pub mod nn;
pub mod norms;
pub mod number;
pub mod param;
pub mod predictor;
pub mod quotients;
pub mod readings;
pub mod samples;
pub mod shape;
pub mod signals;
pub mod speech;
pub mod spline;
pub mod splined;
pub mod steady;
pub mod synthesizer;
pub mod tensor;
pub mod timing;
pub mod trace;
pub mod value;
pub mod vits;
pub mod voice;
pub mod wavenet;

//! Learned parameters: where they sit in the model, their shapes and their starting values.

use crate::number::{share, Real, Scalar, ONE};
use crate::shape::Shape;
use std::rc::Rc;
use vstd::prelude::*;

verus! {

/// A place in the tree of modules.
#[derive(Debug)]
pub enum Path {
    Root,
    Field(Rc<Path>, &'static str),
    Index(Rc<Path>, usize),
}

impl Clone for Path {
    fn clone(&self) -> (r: Self)
        ensures
            r == *self,
    {
        match self {
            Path::Root => Path::Root,
            Path::Field(parent, name) => Path::Field(share(parent), *name),
            Path::Index(parent, i) => Path::Index(share(parent), *i),
        }
    }
}

impl Path {
    pub open spec fn field_expr(self, name: &'static str) -> Path {
        Path::Field(Rc::new(self), name)
    }

    pub open spec fn index_expr(self, i: usize) -> Path {
        Path::Index(Rc::new(self), i)
    }

    /// The place of the field `name`.
    pub fn field(&self, name: &'static str) -> (r: Path)
        ensures
            r == self.field_expr(name),
    {
        Path::Field(Rc::new(self.clone()), name)
    }

    /// The place of the list entry `i`.
    pub fn index(&self, i: usize) -> (r: Path)
        ensures
            r == self.index_expr(i),
    {
        Path::Index(Rc::new(self.clone()), i)
    }
}

/// 1.0 over the square root of 3.0
pub const ROOT_THREE_INVERSE: u64 = 0x3FE2_79A7_4590_331D;

/// A rule by which the weights of a layer start out.
#[derive(Clone, Copy, PartialEq, Eq, Debug, Structural)]
pub enum Initializer {
    /// The same value everywhere.
    Constant { value: Real },
    Ones,
    Zeros,
    /// Uniform between two bounds.
    Uniform { min: Real, max: Real },
    /// Normal around a mean.
    Normal { mean: Real, std: Real },
    /// Uniform around zero, with a spread from the number of inputs, or else of outputs.
    KaimingUniform { gain: Real, fan_out_only: bool },
    /// Normal around zero, with a spread from the number of inputs, or else of outputs.
    KaimingNormal { gain: Real, fan_out_only: bool },
    /// Uniform around zero, with a spread from the numbers of inputs and outputs.
    XavierUniform { gain: Real },
    /// Normal around zero, with a spread from the numbers of inputs and outputs.
    XavierNormal { gain: Real },
    /// Orthogonal rows or columns, whichever are fewer.
    Orthogonal { gain: Real },
}

impl Initializer {
    /// The rule that convolutions follow unless told otherwise.
    pub open spec fn usual() -> Initializer {
        Initializer::KaimingUniform {
            gain: Real { bits: ROOT_THREE_INVERSE },
            fan_out_only: false,
        }
    }

    /// The rule that projections of attention follow.
    pub open spec fn balanced() -> Initializer {
        Initializer::XavierUniform { gain: Real { bits: ONE } }
    }

    /// The rule that convolutions follow unless told otherwise: uniform, with a spread from the
    /// number of inputs.
    pub fn kaiming_uniform() -> (r: Initializer)
        ensures
            r == Initializer::usual(),
    {
        Initializer::KaimingUniform {
            gain: Real { bits: ROOT_THREE_INVERSE },
            fan_out_only: false,
        }
    }

    /// The rule that projections of attention follow: uniform, with a spread from the numbers of
    /// inputs and outputs.
    pub fn xavier_uniform() -> (r: Initializer)
        ensures
            r == Initializer::balanced(),
    {
        Initializer::XavierUniform { gain: Real { bits: ONE } }
    }
}

/// The values that a parameter holds before any weights are loaded.
#[derive(Debug)]
pub enum Start {
    /// By a rule, with the numbers of inputs and outputs that it may ask for. A rule that asks for
    /// a number of outputs that is not recorded has no values to draw: they have to be loaded.
    Drawn { rule: Initializer, fan_in: usize, fan_out: Option<usize> },
    /// Standard normal.
    Normal,
    Ones,
    Zeros,
    /// The Euclidean norm of each leading slice of the parameter at a path.
    FilterNorms(Path),
    /// The values of the parameter at a path.
    SameAs(Path),
    /// Random values times a factor.
    ScaledRandom(Scalar),
}

impl Clone for Start {
    fn clone(&self) -> (r: Self)
        ensures
            r == *self,
    {
        match self {
            Start::Drawn { rule, fan_in, fan_out } => Start::Drawn {
                rule: *rule,
                fan_in: *fan_in,
                fan_out: *fan_out,
            },
            Start::Normal => Start::Normal,
            Start::Ones => Start::Ones,
            Start::Zeros => Start::Zeros,
            Start::FilterNorms(path) => Start::FilterNorms(path.clone()),
            Start::SameAs(path) => Start::SameAs(path.clone()),
            Start::ScaledRandom(factor) => Start::ScaledRandom(factor.clone()),
        }
    }
}

/// A learned tensor of real numbers.
#[derive(Debug)]
pub struct Param {
    pub path: Path,
    pub shape: Shape,
    pub start: Start,
}

impl Clone for Param {
    fn clone(&self) -> (r: Self)
        ensures
            r == *self,
    {
        Param { path: self.path.clone(), shape: self.shape, start: self.start.clone() }
    }
}

} // verus!

//! Monotonic splines of quotients of quadratics.

use crate::number::{Real, Scalar, FOUR, ONE, TWO, ZERO};
use crate::shape::Shape;
use crate::tensor::{BinaryOp, Kind, ScalarOp, Tensor, UnaryOp};
use vstd::prelude::*;

verus! {

/// 1e-3
pub const DEFAULT_MIN_BIN_WIDTH: u64 = 0x3F50_624D_D2F1_A9FC;

/// 1e-3
pub const DEFAULT_MIN_BIN_HEIGHT: u64 = 0x3F50_624D_D2F1_A9FC;

/// 1e-3
pub const DEFAULT_MIN_DERIVATIVE: u64 = 0x3F50_624D_D2F1_A9FC;

/// 1e-6
pub const EDGE_TOLERANCE: u64 = 0x3EB0_C6F7_A0B5_ED8D;

/// The index of the last edge that is not above each input, the last edge moved up by `eps`.
pub open spec fn searchsorted_expr(bin_locations: Tensor, inputs: Tensor, eps: u64) -> Tensor {
    let last = (bin_locations.at(1) - 1) as usize;
    let moved = bin_locations.slice_assign_expr(
        1,
        last,
        bin_locations.slice_expr(1, last, bin_locations.at(1)).scalar_expr(
            ScalarOp::Add,
            Scalar::literal_expr(eps),
        ),
    );
    inputs.unsqueeze_expr(1).binary_expr(BinaryOp::GreaterEqual, moved).unary_expr(
        UnaryOp::ToInt,
    ).sum_dim_expr(1).squeeze_expr(1).scalar_expr(ScalarOp::Sub, Scalar::literal_expr(ONE))
}

/// The index of the last edge that is not above each input, the last edge moved up by `eps`.
pub fn searchsorted(bin_locations: Tensor, inputs: Tensor, eps: u64) -> (r: Tensor)
    requires
        bin_locations.wf(),
        bin_locations.kind == Kind::Float,
        inputs.wf(),
        inputs.kind == Kind::Float,
        inputs.shape.rank() == 1,
        bin_locations.shape == Shape::D2(inputs.at(0), bin_locations.at(1)),
        bin_locations.at(1) >= 1,
    ensures
        r == searchsorted_expr(bin_locations, inputs, eps),
        r.wf(),
        r.kind == Kind::Int,
        r.shape == inputs.shape,
{
    let edges: usize = bin_locations.shape.dim(1);
    let moved = bin_locations.clone().slice(1, edges - 1, edges).scalar(
        ScalarOp::Add,
        Scalar::literal(eps),
    );
    let bin_locations = bin_locations.slice_assign(1, edges - 1, moved);
    inputs.unsqueeze_dim(1).binary(BinaryOp::GreaterEqual, bin_locations).unary(
        UnaryOp::ToInt,
    ).sum_dim(1).squeeze_dim(1).scalar(ScalarOp::Sub, Scalar::literal(ONE))
}

/// The edges of bins between two bounds: shares by softmax, none below a minimum, summed up.
pub open spec fn edges_expr(shares: Tensor, min_size: Real, low: Scalar, high: Scalar) -> Tensor {
    let least = Scalar::Literal(min_size);
    let rest = Scalar::literal_expr(ONE).sub_expr(least.mul_expr(Scalar::Count(shares.at(1))));
    let sizes = shares.softmax_expr(1).scalar_expr(ScalarOp::Mul, rest).scalar_expr(
        ScalarOp::Add,
        least,
    );
    sizes.cumsum_expr(1).pad_expr(1, 1, 0).scalar_expr(
        ScalarOp::Mul,
        high.sub_expr(low),
    ).scalar_expr(ScalarOp::Add, low).slice_fill_expr(1, 0, low).slice_fill_expr(
        1,
        shares.at(1),
        high,
    )
}

fn edges(shares: Tensor, min_size: Real, low: &Scalar, high: &Scalar) -> (r: Tensor)
    requires
        shares.wf(),
        shares.kind == Kind::Float,
        shares.shape.rank() == 2,
        1 <= shares.at(1) < usize::MAX,
    ensures
        r == edges_expr(shares, min_size, *low, *high),
        r.wf(),
        r.kind == Kind::Float,
        r.shape == Shape::D2(shares.at(0), (shares.at(1) + 1) as usize),
{
    let num_bins: usize = shares.shape.dim(1);
    let rest = Scalar::literal(ONE).minus(
        Scalar::Literal(min_size).times(Scalar::Count(num_bins)),
    );
    let sizes = shares.softmax(1).scalar(ScalarOp::Mul, rest).scalar(
        ScalarOp::Add,
        Scalar::Literal(min_size),
    );
    let summed = sizes.cumsum(1).pad(1, 1, 0);
    let placed = summed.scalar(ScalarOp::Mul, high.clone().minus(low.clone())).scalar(
        ScalarOp::Add,
        low.clone(),
    );
    placed.slice_fill(1, 0, low.clone()).slice_fill(1, num_bins, high.clone())
}

/// The sizes of the bins between edges.
pub open spec fn sizes_expr(edges: Tensor) -> Tensor {
    edges.slice_expr(1, 1, edges.at(1)).minus_expr(
        edges.slice_expr(1, 0, (edges.at(1) - 1) as usize),
    )
}

fn sizes(edges: Tensor) -> (r: Tensor)
    requires
        edges.wf(),
        edges.kind == Kind::Float,
        edges.shape.rank() == 2,
        edges.at(1) >= 2,
    ensures
        r == sizes_expr(edges),
        r.wf(),
        r.kind == Kind::Float,
        r.shape == Shape::D2(edges.at(0), (edges.at(1) - 1) as usize),
{
    let n: usize = edges.shape.dim(1);
    edges.clone().slice(1, 1, n).minus(edges.slice(1, 0, n - 1))
}

/// The entry of each row at its index.
pub open spec fn picked_expr(table: Tensor, bin_idx: Tensor) -> Tensor {
    table.gather_expr(1, bin_idx).slice_expr(1, 0, 1).squeeze1_expr()
}

fn picked(table: Tensor, bin_idx: &Tensor) -> (r: Tensor)
    requires
        table.wf(),
        table.kind == Kind::Float,
        table.shape.rank() == 2,
        bin_idx.wf(),
        bin_idx.kind == Kind::Int,
        bin_idx.shape == Shape::D2(table.at(0), 1),
        table.at(0) != 1,
    ensures
        r == picked_expr(table, *bin_idx),
        r.wf(),
        r.kind == Kind::Float,
        r.shape == Shape::D1(table.at(0)),
{
    let found = table.gather(1, bin_idx.clone()).slice(1, 0, 1);
    proof {
        assert(found.shape.sizes_beyond_one() =~= seq![found.at(0)]);
    }
    found.squeeze1()
}

/// The spline around each input: the bin it falls into and the slopes at the bin's ends.
#[derive(Debug)]
pub struct Segment {
    pub cumwidths: Tensor,
    pub bin_widths: Tensor,
    pub cumheights: Tensor,
    pub heights: Tensor,
    pub delta: Tensor,
    pub derivatives: Tensor,
    pub derivatives_plus_one: Tensor,
}

impl Segment {
    /// One number for each of `n` inputs.
    pub open spec fn wf(self, n: usize) -> bool {
        &&& is_line(self.cumwidths, n)
        &&& is_line(self.bin_widths, n)
        &&& is_line(self.cumheights, n)
        &&& is_line(self.heights, n)
        &&& is_line(self.delta, n)
        &&& is_line(self.derivatives, n)
        &&& is_line(self.derivatives_plus_one, n)
    }

    /// How far the slopes at the ends are from the mean slope.
    pub open spec fn excess_expr(self) -> Tensor {
        self.derivatives.plus_expr(self.derivatives_plus_one).minus_expr(
            self.delta.scalar_expr(ScalarOp::Mul, Scalar::literal_expr(TWO)),
        )
    }

    fn excess(&self) -> (r: Tensor)
        requires
            self.wf(self.delta.at(0)),
        ensures
            r == self.excess_expr(),
            is_line(r, self.delta.at(0)),
    {
        self.derivatives.clone().plus(self.derivatives_plus_one.clone()).minus(
            self.delta.clone().scalar(ScalarOp::Mul, Scalar::literal(TWO)),
        )
    }

    /// The denominator of the spline at a fraction of the bin, given the fraction times its rest.
    pub open spec fn denominator_expr(self, product: Tensor) -> Tensor {
        self.delta.plus_expr(self.excess_expr().times_expr(product))
    }

    /// The logarithm of the slope of the spline at a fraction of the bin.
    pub open spec fn log_slope_expr(self, theta: Tensor) -> Tensor {
        let two = Scalar::literal_expr(TWO);
        let rest = theta.scalar_expr(ScalarOp::SubFrom, Scalar::literal_expr(ONE));
        let product = theta.times_expr(rest);
        let numerator = self.delta.scalar_expr(ScalarOp::Powi, two).times_expr(
            self.derivatives_plus_one.times_expr(
                theta.scalar_expr(ScalarOp::Powi, two),
            ).plus_expr(self.delta.scalar_expr(ScalarOp::Mul, two).times_expr(product)).plus_expr(
                self.derivatives.times_expr(rest.scalar_expr(ScalarOp::Powi, two)),
            ),
        );
        numerator.unary_expr(UnaryOp::Log).minus_expr(
            self.denominator_expr(product).unary_expr(UnaryOp::Log).scalar_expr(
                ScalarOp::Mul,
                two,
            ),
        )
    }

    fn log_slope(&self, theta: Tensor) -> (r: Tensor)
        requires
            is_line(theta, theta.at(0)),
            self.wf(theta.at(0)),
        ensures
            r == self.log_slope_expr(theta),
            is_line(r, theta.at(0)),
    {
        let rest = theta.clone().scalar(ScalarOp::SubFrom, Scalar::literal(ONE));
        let product = theta.clone().times(rest.clone());
        let denominator = self.delta.clone().plus(
            self.excess().times(product.clone()),
        );
        let weighted = self.derivatives_plus_one.clone().times(
            theta.scalar(ScalarOp::Powi, Scalar::literal(TWO)),
        ).plus(
            self.delta.clone().scalar(ScalarOp::Mul, Scalar::literal(TWO)).times(product),
        ).plus(
            self.derivatives.clone().times(rest.scalar(ScalarOp::Powi, Scalar::literal(TWO))),
        );
        let numerator = self.delta.clone().scalar(ScalarOp::Powi, Scalar::literal(TWO)).times(
            weighted,
        );
        numerator.unary(UnaryOp::Log).minus(
            denominator.unary(UnaryOp::Log).scalar(ScalarOp::Mul, Scalar::literal(TWO)),
        )
    }

    /// The height of the spline at a fraction of the bin.
    pub open spec fn value_expr(self, theta: Tensor) -> Tensor {
        let product = theta.times_expr(
            theta.scalar_expr(ScalarOp::SubFrom, Scalar::literal_expr(ONE)),
        );
        let numerator = self.heights.times_expr(
            self.delta.times_expr(
                theta.scalar_expr(ScalarOp::Powi, Scalar::literal_expr(TWO)),
            ).plus_expr(self.derivatives.times_expr(product)),
        );
        self.cumheights.plus_expr(numerator.over_expr(self.denominator_expr(product)))
    }

    fn value(&self, theta: Tensor) -> (r: Tensor)
        requires
            is_line(theta, theta.at(0)),
            self.wf(theta.at(0)),
        ensures
            r == self.value_expr(theta),
            is_line(r, theta.at(0)),
    {
        let product = theta.clone().times(
            theta.clone().scalar(ScalarOp::SubFrom, Scalar::literal(ONE)),
        );
        let numerator = self.heights.clone().times(
            self.delta.clone().times(theta.scalar(ScalarOp::Powi, Scalar::literal(TWO))).plus(
                self.derivatives.clone().times(product.clone()),
            ),
        );
        let denominator = self.delta.clone().plus(self.excess().times(product));
        self.cumheights.clone().plus(numerator.over(denominator))
    }

    /// The coefficients of the quadratic whose root is the fraction of the bin at which the spline
    /// has a height.
    pub open spec fn coefficients_expr(self, inputs: Tensor) -> (Tensor, Tensor, Tensor) {
        let above = inputs.minus_expr(self.cumheights);
        (
            above.times_expr(self.excess_expr()).plus_expr(
                self.heights.times_expr(self.delta.minus_expr(self.derivatives)),
            ),
            self.heights.times_expr(self.derivatives).minus_expr(
                above.times_expr(self.excess_expr()),
            ),
            self.delta.unary_expr(UnaryOp::Neg).times_expr(above),
        )
    }

    /// The discriminant of the quadratic.
    pub open spec fn discriminant_expr(self, inputs: Tensor) -> Tensor {
        let (a, b, c) = self.coefficients_expr(inputs);
        b.scalar_expr(ScalarOp::Powi, Scalar::literal_expr(TWO)).minus_expr(
            a.scalar_expr(ScalarOp::Mul, Scalar::literal_expr(FOUR)).times_expr(c),
        )
    }

    /// Where the discriminant is not negative.
    pub open spec fn defined_expr(self, inputs: Tensor) -> Tensor {
        self.discriminant_expr(inputs).scalar_expr(
            ScalarOp::GreaterEqual,
            Scalar::literal_expr(0),
        )
    }

    /// The fraction of the bin at which the spline has a height: a root of a quadratic, whose
    /// discriminant must not be negative anywhere.
    pub open spec fn root_expr(self, inputs: Tensor) -> Tensor {
        let (a, b, c) = self.coefficients_expr(inputs);
        let discriminant = self.discriminant_expr(inputs).guard_expr(self.defined_expr(inputs));
        c.scalar_expr(ScalarOp::Mul, Scalar::literal_expr(TWO)).over_expr(
            b.unary_expr(UnaryOp::Neg).minus_expr(discriminant.unary_expr(UnaryOp::Sqrt)),
        )
    }

    fn root(&self, inputs: Tensor) -> (r: Tensor)
        requires
            is_line(inputs, inputs.at(0)),
            self.wf(inputs.at(0)),
        ensures
            r == self.root_expr(inputs),
            is_line(r, inputs.at(0)),
    {
        let above = inputs.minus(self.cumheights.clone());
        let excess = self.excess();
        let a = above.clone().times(excess.clone()).plus(
            self.heights.clone().times(self.delta.clone().minus(self.derivatives.clone())),
        );
        let b = self.heights.clone().times(self.derivatives.clone()).minus(
            above.clone().times(excess),
        );
        let c = self.delta.clone().unary(UnaryOp::Neg).times(above);
        let discriminant = b.clone().scalar(ScalarOp::Powi, Scalar::literal(TWO)).minus(
            a.scalar(ScalarOp::Mul, Scalar::literal(FOUR)).times(c.clone()),
        );
        let defined = discriminant.clone().scalar(ScalarOp::GreaterEqual, Scalar::literal(0));
        let discriminant = discriminant.guard(defined);
        c.scalar(ScalarOp::Mul, Scalar::literal(TWO)).over(
            b.unary(UnaryOp::Neg).minus(discriminant.unary(UnaryOp::Sqrt)),
        )
    }
}

/// A row of `n` real numbers.
pub open spec fn is_line(t: Tensor, n: usize) -> bool {
    t.wf() && t.kind == Kind::Float && t.shape == Shape::D1(n)
}

/// Bounds and minima of a spline.
#[derive(Debug)]
pub struct SplineBox {
    pub left: Scalar,
    pub right: Scalar,
    pub bottom: Scalar,
    pub top: Scalar,
    pub min_bin_width: Real,
    pub min_bin_height: Real,
    pub min_derivative: Real,
}

impl SplineBox {
    /// The part of the spline that each input falls into, by its width or, inverse, its height.
    pub open spec fn segment_expr(
        self,
        inputs: Tensor,
        unnormalized_widths: Tensor,
        unnormalized_heights: Tensor,
        unnormalized_derivatives: Tensor,
        inverse: bool,
    ) -> Segment {
        let cumwidths = edges_expr(
            unnormalized_widths,
            self.min_bin_width,
            self.left,
            self.right,
        );
        let cumheights = edges_expr(
            unnormalized_heights,
            self.min_bin_height,
            self.bottom,
            self.top,
        );
        let widths = sizes_expr(cumwidths);
        let heights = sizes_expr(cumheights);
        let derivatives = unnormalized_derivatives.unary_expr(UnaryOp::Softplus).scalar_expr(
            ScalarOp::Add,
            Scalar::Literal(self.min_derivative),
        );
        let bin_idx = searchsorted_expr(
            if inverse {
                cumheights
            } else {
                cumwidths
            },
            inputs,
            EDGE_TOLERANCE,
        ).unsqueeze_expr(1);
        Segment {
            cumwidths: picked_expr(cumwidths, bin_idx),
            bin_widths: picked_expr(widths, bin_idx),
            cumheights: picked_expr(cumheights, bin_idx),
            heights: picked_expr(heights, bin_idx),
            delta: picked_expr(heights.over_expr(widths), bin_idx),
            derivatives: picked_expr(derivatives, bin_idx),
            derivatives_plus_one: picked_expr(
                derivatives.slice_expr(1, 1, derivatives.at(1)),
                bin_idx,
            ),
        }
    }

    /// What [`rational_quadratic_spline`] yields.
    pub open spec fn spline_expr(
        self,
        inputs: Tensor,
        unnormalized_widths: Tensor,
        unnormalized_heights: Tensor,
        unnormalized_derivatives: Tensor,
        inverse: bool,
    ) -> (Tensor, Tensor) {
        let segment = self.segment_expr(
            inputs,
            unnormalized_widths,
            unnormalized_heights,
            unnormalized_derivatives,
            inverse,
        );
        if inverse {
            let root = segment.root_expr(inputs);
            (
                root.times_expr(segment.bin_widths).plus_expr(segment.cumwidths),
                segment.log_slope_expr(root).unary_expr(UnaryOp::Neg),
            )
        } else {
            let theta = inputs.minus_expr(segment.cumwidths).over_expr(segment.bin_widths);
            (
                segment.value_expr(theta),
                segment.log_slope_expr(theta).unary_expr(UnaryOp::Neg),
            )
        }
    }
}

/// Whether a spline is given for each input, with the same number of bins, and a slope at least for
/// each edge.
pub open spec fn spline_takes(
    inputs: Tensor,
    unnormalized_widths: Tensor,
    unnormalized_heights: Tensor,
    unnormalized_derivatives: Tensor,
) -> bool {
    let n = inputs.at(0);
    let bins = unnormalized_widths.at(1);
    &&& is_line(inputs, n)
    &&& n != 1
    &&& 1 <= bins < usize::MAX
    &&& unnormalized_widths.wf()
    &&& unnormalized_widths.kind == Kind::Float
    &&& unnormalized_widths.shape == Shape::D2(n, bins)
    &&& unnormalized_heights.wf()
    &&& unnormalized_heights.kind == Kind::Float
    &&& unnormalized_heights.shape == Shape::D2(n, bins)
    &&& unnormalized_derivatives.wf()
    &&& unnormalized_derivatives.kind == Kind::Float
    &&& unnormalized_derivatives.shape == Shape::D2(n, unnormalized_derivatives.at(1))
    &&& unnormalized_derivatives.at(1) >= bins + 1
}

/// The values of splines at the inputs, or the inputs at which they have those values, and the
/// negated logarithms of the slopes there.
pub fn rational_quadratic_spline(
    inputs: Tensor,
    unnormalized_widths: Tensor,
    unnormalized_heights: Tensor,
    unnormalized_derivatives: Tensor,
    inverse: bool,
    bounds: &SplineBox,
) -> (r: (Tensor, Tensor))
    requires
        spline_takes(
            inputs,
            unnormalized_widths,
            unnormalized_heights,
            unnormalized_derivatives,
        ),
    ensures
        r == bounds.spline_expr(
            inputs,
            unnormalized_widths,
            unnormalized_heights,
            unnormalized_derivatives,
            inverse,
        ),
        is_line(r.0, inputs.at(0)),
        is_line(r.1, inputs.at(0)),
{
    let cumwidths = edges(
        unnormalized_widths,
        bounds.min_bin_width,
        &bounds.left,
        &bounds.right,
    );
    let widths = sizes(cumwidths.clone());
    let derivatives = unnormalized_derivatives.unary(UnaryOp::Softplus).scalar(
        ScalarOp::Add,
        Scalar::Literal(bounds.min_derivative),
    );
    let cumheights = edges(
        unnormalized_heights,
        bounds.min_bin_height,
        &bounds.bottom,
        &bounds.top,
    );
    let heights = sizes(cumheights.clone());
    let bin_idx = if inverse {
        searchsorted(cumheights.clone(), inputs.clone(), EDGE_TOLERANCE)
    } else {
        searchsorted(cumwidths.clone(), inputs.clone(), EDGE_TOLERANCE)
    };
    let bin_idx = bin_idx.unsqueeze_dim(1);
    let n_derivatives: usize = derivatives.shape.dim(1);
    let segment = Segment {
        cumwidths: picked(cumwidths, &bin_idx),
        bin_widths: picked(widths.clone(), &bin_idx),
        cumheights: picked(cumheights, &bin_idx),
        heights: picked(heights.clone(), &bin_idx),
        delta: picked(heights.over(widths), &bin_idx),
        derivatives: picked(derivatives.clone(), &bin_idx),
        derivatives_plus_one: picked(derivatives.slice(1, 1, n_derivatives), &bin_idx),
    };
    if inverse {
        let root = segment.root(inputs);
        let outputs = root.clone().times(segment.bin_widths.clone()).plus(
            segment.cumwidths.clone(),
        );
        let logabsdet = segment.log_slope(root);
        return (outputs, logabsdet.unary(UnaryOp::Neg));
    }
    let theta = inputs.minus(segment.cumwidths.clone()).over(segment.bin_widths.clone());
    let outputs = segment.value(theta.clone());
    let logabsdet = segment.log_slope(theta);
    (outputs, logabsdet.unary(UnaryOp::Neg))
}

/// What the spline is beyond its bounds.
pub open spec fn linear(tails: Option<&str>) -> bool {
    tails matches Some(name) && name@ == "linear"@
}

/// Whether splines are given for the inputs in one row and channel, with the same number of bins,
/// and a slope at least for each edge between two bins.
pub open spec fn row_takes(
    inputs: Tensor,
    unnormalized_widths: Tensor,
    unnormalized_heights: Tensor,
    unnormalized_derivatives: Tensor,
) -> bool {
    let n = inputs.at(2);
    let bins = unnormalized_widths.at(3);
    &&& inputs.is_signal()
    &&& inputs.shape == Shape::D3(1, 1, n)
    &&& n != 1
    &&& 2 <= bins < usize::MAX
    &&& unnormalized_widths.wf()
    &&& unnormalized_widths.kind == Kind::Float
    &&& unnormalized_widths.shape == Shape::D4(1, 1, n, bins)
    &&& unnormalized_heights.wf()
    &&& unnormalized_heights.kind == Kind::Float
    &&& unnormalized_heights.shape == Shape::D4(1, 1, n, bins)
    &&& unnormalized_derivatives.wf()
    &&& unnormalized_derivatives.kind == Kind::Float
    &&& unnormalized_derivatives.shape == Shape::D4(1, 1, n, unnormalized_derivatives.at(3))
    &&& bins - 1 <= unnormalized_derivatives.at(3) <= usize::MAX - 2
}

/// The bounds `-tail_bound` and `tail_bound` in both directions.
pub open spec fn symmetric(
    tail_bound: Real,
    min_bin_width: Real,
    min_bin_height: Real,
    min_derivative: Real,
) -> SplineBox {
    let bound = Scalar::Literal(tail_bound);
    SplineBox {
        left: bound.neg_expr(),
        right: bound,
        bottom: bound.neg_expr(),
        top: bound,
        min_bin_width,
        min_bin_height,
        min_derivative,
    }
}

/// Which inputs lie within the bounds.
pub open spec fn inside_expr(inputs: Tensor, tail_bound: Real) -> Tensor {
    let bound = Scalar::Literal(tail_bound);
    inputs.scalar_expr(ScalarOp::GreaterEqual, bound.neg_expr()).binary_expr(
        BinaryOp::And,
        inputs.scalar_expr(ScalarOp::LowerEqual, bound),
    )
}

/// The slopes at the edges, one at the outermost two, before they are made positive.
pub open spec fn tailed_expr(unnormalized_derivatives: Tensor, min_derivative: Real) -> Tensor {
    let one = Scalar::literal_expr(ONE);
    let constant = one.sub_expr(Scalar::Literal(min_derivative)).exp_expr().sub_expr(
        one,
    ).ln_expr();
    let padded = unnormalized_derivatives.pad_expr(3, 1, 1);
    padded.slice_fill_expr(3, 0, constant).slice_fill_expr(
        3,
        (padded.at(3) - 1) as usize,
        constant,
    )
}

/// What [`unconstrained_rational_quadratic_spline`] yields.
pub open spec fn unconstrained_expr(
    inputs: Tensor,
    unnormalized_widths: Tensor,
    unnormalized_heights: Tensor,
    unnormalized_derivatives: Tensor,
    inverse: bool,
    bounds: SplineBox,
    tail_bound: Real,
) -> (Tensor, Tensor) {
    let inside = inside_expr(inputs, tail_bound);
    let outside = inside.unary_expr(UnaryOp::Not);
    let zeros = Tensor::zeros_expr(inputs.shape);
    let outputs = zeros.mask_where_expr(outside, inputs);
    let logabsdet = zeros.mask_fill_expr(outside, Scalar::literal_expr(ZERO));
    let derivatives = tailed_expr(unnormalized_derivatives, bounds.min_derivative);
    let inside4 = inside.unsqueeze_expr(3);
    let (t_outputs, t_logabsdet) = bounds.spline_expr(
        inputs.mask_where_expr(inside, inputs).squeeze1_expr(),
        unnormalized_widths.mask_where_expr(inside4, unnormalized_widths).squeeze2_expr(),
        unnormalized_heights.mask_where_expr(inside4, unnormalized_heights).squeeze2_expr(),
        derivatives.mask_where_expr(inside4, derivatives).squeeze2_expr(),
        inverse,
    );
    let outputs = outputs.mask_where_expr(inside, t_outputs.reshape_expr(inputs.shape));
    let logabsdet = logabsdet.mask_where_expr(inside, t_logabsdet.reshape_expr(inputs.shape));
    (outputs.mask_where_expr(inside, outputs), logabsdet.mask_where_expr(inside, logabsdet))
}

/// `t` with its own elements put where the mask holds, squeezed to rows.
fn rows_within(t: Tensor, inside: &Tensor) -> (r: Tensor)
    requires
        t.wf(),
        t.kind == Kind::Float,
        t.shape == Shape::D4(1, 1, t.at(2), t.at(3)),
        t.at(2) != 1,
        t.at(3) != 1,
        inside.wf(),
        inside.kind == Kind::Bool,
        inside.shape == Shape::D3(1, 1, t.at(2)),
    ensures
        r == t.mask_where_expr(inside.unsqueeze_expr(3), t).squeeze2_expr(),
        r.wf(),
        r.kind == Kind::Float,
        r.shape == Shape::D2(t.at(2), t.at(3)),
{
    proof {
        assert(t.shape.sizes_beyond_one() =~= seq![t.at(2), t.at(3)]);
    }
    t.clone().mask_where(inside.clone().unsqueeze_dim(3), t).squeeze2()
}

/// A row of numbers as a signal of one row and channel.
fn as_signal(t: Tensor) -> (r: Tensor)
    requires
        is_line(t, t.at(0)),
    ensures
        r == t.reshape_expr(Shape::D3(1, 1, t.at(0))),
        r.is_signal(),
        r.shape == Shape::D3(1, 1, t.at(0)),
{
    let n: usize = t.shape.dim(0);
    proof {
        assert(1 * 1 * n == n) by (nonlinear_arith);
    }
    t.reshape(Shape::D3(1, 1, n))
}

/// The spline within `tail_bound` on both sides of zero and the identity beyond, with the negated
/// logarithms of the slopes. There is no other tail than the linear one.
pub fn unconstrained_rational_quadratic_spline(
    inputs: Tensor,
    unnormalized_widths: Tensor,
    unnormalized_heights: Tensor,
    unnormalized_derivatives: Tensor,
    inverse: bool,
    min_bin_width: Real,
    min_bin_height: Real,
    min_derivative: Real,
    tails: Option<&str>,
    tail_bound: Real,
) -> (r: (Tensor, Tensor))
    requires
        linear(tails),
        row_takes(inputs, unnormalized_widths, unnormalized_heights, unnormalized_derivatives),
    ensures
        r == unconstrained_expr(
            inputs,
            unnormalized_widths,
            unnormalized_heights,
            unnormalized_derivatives,
            inverse,
            symmetric(tail_bound, min_bin_width, min_bin_height, min_derivative),
            tail_bound,
        ),
        r.0.is_signal(),
        r.0.shape == inputs.shape,
        r.1.is_signal(),
        r.1.shape == inputs.shape,
{
    let bound = Scalar::Literal(tail_bound);
    let inside = inputs.clone().scalar(ScalarOp::GreaterEqual, bound.clone().neg()).binary(
        BinaryOp::And,
        inputs.clone().scalar(ScalarOp::LowerEqual, bound.clone()),
    );
    let outside = inside.clone().unary(UnaryOp::Not);
    let outputs = Tensor::zeros(inputs.shape).mask_where(outside.clone(), inputs.clone());
    let logabsdet = Tensor::zeros(inputs.shape).mask_fill(outside, Scalar::literal(ZERO));
    let padded = unnormalized_derivatives.pad(3, 1, 1);
    let constant = Scalar::literal(ONE).minus(Scalar::Literal(min_derivative)).exp().minus(
        Scalar::literal(ONE),
    ).ln();
    let edges: usize = padded.shape.dim(3);
    let derivatives = padded.slice_fill(3, 0, constant.clone()).slice_fill(3, edges - 1, constant);
    proof {
        assert(inputs.shape.sizes_beyond_one() =~= seq![inputs.at(2)]);
    }
    let line = inputs.clone().mask_where(inside.clone(), inputs).squeeze1();
    let bounds = SplineBox {
        left: bound.clone().neg(),
        right: bound.clone(),
        bottom: bound.clone().neg(),
        top: bound,
        min_bin_width,
        min_bin_height,
        min_derivative,
    };
    let (t_outputs, t_logabsdet) = rational_quadratic_spline(
        line,
        rows_within(unnormalized_widths, &inside),
        rows_within(unnormalized_heights, &inside),
        rows_within(derivatives, &inside),
        inverse,
        &bounds,
    );
    let outputs = outputs.mask_where(inside.clone(), as_signal(t_outputs));
    let logabsdet = logabsdet.mask_where(inside.clone(), as_signal(t_logabsdet));
    (
        outputs.clone().mask_where(inside.clone(), outputs),
        logabsdet.clone().mask_where(inside, logabsdet),
    )
}

/// The bounds zero and one in both directions.
pub open spec fn unit_box() -> SplineBox {
    SplineBox {
        left: Scalar::literal_expr(ZERO),
        right: Scalar::literal_expr(ONE),
        bottom: Scalar::literal_expr(ZERO),
        top: Scalar::literal_expr(ONE),
        min_bin_width: Real { bits: DEFAULT_MIN_BIN_WIDTH },
        min_bin_height: Real { bits: DEFAULT_MIN_BIN_HEIGHT },
        min_derivative: Real { bits: DEFAULT_MIN_DERIVATIVE },
    }
}

/// Whether splines between zero and one are given, for inputs along any one dimension.
pub open spec fn unit_takes(
    inputs: Tensor,
    unnormalized_widths: Tensor,
    unnormalized_heights: Tensor,
    unnormalized_derivatives: Tensor,
) -> bool {
    let n = inputs.shape.sizes_beyond_one()[0];
    let bins = unnormalized_widths.shape.sizes_beyond_one()[1];
    let slopes = unnormalized_derivatives.shape.sizes_beyond_one()[1];
    &&& inputs.is_signal()
    &&& inputs.shape.sizes_beyond_one() == seq![n]
    &&& unnormalized_widths.wf()
    &&& unnormalized_widths.kind == Kind::Float
    &&& unnormalized_widths.shape.sizes_beyond_one() == seq![n, bins]
    &&& 1 <= bins < usize::MAX
    &&& unnormalized_heights.wf()
    &&& unnormalized_heights.kind == Kind::Float
    &&& unnormalized_heights.shape.sizes_beyond_one() == seq![n, bins]
    &&& unnormalized_derivatives.wf()
    &&& unnormalized_derivatives.kind == Kind::Float
    &&& unnormalized_derivatives.shape.sizes_beyond_one() == seq![n, slopes]
    &&& slopes >= bins + 1
}

/// What [`piecewise_rational_quadratic_transform`] yields.
pub open spec fn transform_expr(
    inputs: Tensor,
    unnormalized_widths: Tensor,
    unnormalized_heights: Tensor,
    unnormalized_derivatives: Tensor,
    inverse: bool,
    tails: Option<&str>,
    tail_bound: Real,
) -> (Tensor, Tensor) {
    if tails is None {
        let r = unit_box().spline_expr(
            inputs.squeeze1_expr(),
            unnormalized_widths.squeeze2_expr(),
            unnormalized_heights.squeeze2_expr(),
            unnormalized_derivatives.squeeze2_expr(),
            inverse,
        );
        let shape = Shape::D3(1, 1, inputs.shape.sizes_beyond_one()[0]);
        (r.0.reshape_expr(shape), r.1.reshape_expr(shape))
    } else {
        unconstrained_expr(
            inputs,
            unnormalized_widths,
            unnormalized_heights,
            unnormalized_derivatives,
            inverse,
            symmetric(
                tail_bound,
                Real { bits: DEFAULT_MIN_BIN_WIDTH },
                Real { bits: DEFAULT_MIN_BIN_HEIGHT },
                Real { bits: DEFAULT_MIN_DERIVATIVE },
            ),
            tail_bound,
        )
    }
}

/// The spline between zero and one, or with linear tails between `-tail_bound` and `tail_bound`
/// and the identity beyond, with the negated logarithms of the slopes.
pub fn piecewise_rational_quadratic_transform(
    inputs: Tensor,
    unnormalized_widths: Tensor,
    unnormalized_heights: Tensor,
    unnormalized_derivatives: Tensor,
    inverse: bool,
    tails: Option<&str>,
    tail_bound: Real,
) -> (r: (Tensor, Tensor))
    requires
        tails is None && unit_takes(
            inputs,
            unnormalized_widths,
            unnormalized_heights,
            unnormalized_derivatives,
        ) || linear(tails) && row_takes(
            inputs,
            unnormalized_widths,
            unnormalized_heights,
            unnormalized_derivatives,
        ),
    ensures
        r == transform_expr(
            inputs,
            unnormalized_widths,
            unnormalized_heights,
            unnormalized_derivatives,
            inverse,
            tails,
            tail_bound,
        ),
        r.0.is_signal(),
        r.1.is_signal(),
        r.0.shape == r.1.shape,
        tails is Some ==> r.0.shape == inputs.shape,
        tails is None ==> r.0.shape == Shape::D3(1, 1, inputs.shape.sizes_beyond_one()[0]),
{
    if tails.is_none() {
        let bounds = SplineBox {
            left: Scalar::literal(ZERO),
            right: Scalar::literal(ONE),
            bottom: Scalar::literal(ZERO),
            top: Scalar::literal(ONE),
            min_bin_width: Real::from_bits(DEFAULT_MIN_BIN_WIDTH),
            min_bin_height: Real::from_bits(DEFAULT_MIN_BIN_HEIGHT),
            min_derivative: Real::from_bits(DEFAULT_MIN_DERIVATIVE),
        };
        proof {
            lemma_no_ones(inputs.shape);
        }
        let (t_ret_1, t_ret_2) = rational_quadratic_spline(
            inputs.squeeze1(),
            unnormalized_widths.squeeze2(),
            unnormalized_heights.squeeze2(),
            unnormalized_derivatives.squeeze2(),
            inverse,
            &bounds,
        );
        (as_signal(t_ret_1), as_signal(t_ret_2))
    } else {
        unconstrained_rational_quadratic_spline(
            inputs,
            unnormalized_widths,
            unnormalized_heights,
            unnormalized_derivatives,
            inverse,
            Real::from_bits(DEFAULT_MIN_BIN_WIDTH),
            Real::from_bits(DEFAULT_MIN_BIN_HEIGHT),
            Real::from_bits(DEFAULT_MIN_DERIVATIVE),
            tails,
            tail_bound,
        )
    }
}

/// A size beyond one is not one.
proof fn lemma_no_ones(shape: Shape)
    requires
        shape.sizes_beyond_one().len() == 1,
    ensures
        shape.sizes_beyond_one()[0] != 1,
{
    match shape {
        Shape::D1(a) => {},
        Shape::D2(a, b) => {},
        Shape::D3(a, b, c) => {},
        Shape::D4(a, b, c, d) => {},
    }
}

} // verus!

//! Tensor shapes of rank one to four.

use vstd::prelude::*;

verus! {

/// The sizes of a tensor's dimensions.
#[derive(Clone, Copy, PartialEq, Eq, Debug, Structural)]
pub enum Shape {
    D1(usize),
    D2(usize, usize),
    D3(usize, usize, usize),
    D4(usize, usize, usize, usize),
}

/// Factors of one leave a product as it is.
proof fn lemma_unit_factors(a: usize, b: usize, c: usize)
    ensures
        1 * a == a,
        a * 1 == a,
        1 * a * b == a * b,
        a * 1 * b == a * b,
        a * b * 1 == a * b,
        1 * a * b * c == a * b * c,
        a * 1 * b * c == a * b * c,
        a * b * 1 * c == a * b * c,
        a * b * c * 1 == a * b * c,
{
    assert(1 * a * b == a * b) by (nonlinear_arith);
    assert(a * 1 * b == a * b) by (nonlinear_arith);
    assert(1 * a * b * c == a * b * c) by (nonlinear_arith);
    assert(a * 1 * b * c == a * b * c) by (nonlinear_arith);
    assert(a * b * 1 * c == a * b * c) by (nonlinear_arith);
}

impl Shape {
    /// Whether two sizes agree or one of them is stretched from one.
    pub open spec fn sizes_agree(a: usize, b: usize) -> bool {
        a == b || a == 1 || b == 1
    }

    /// The size of a dimension after stretching.
    pub open spec fn joined_size(a: usize, b: usize) -> usize {
        if a == 1 {
            b
        } else {
            a
        }
    }

    /// The size of a dimension after stretching.
    pub fn join_size(a: usize, b: usize) -> (r: usize)
        ensures
            r == Shape::joined_size(a, b),
    {
        if a == 1 {
            b
        } else {
            a
        }
    }

    /// The size by itself, or nothing for a size of one.
    pub open spec fn unless_one(n: usize) -> Seq<usize> {
        if n == 1 {
            seq![]
        } else {
            seq![n]
        }
    }

    /// The number of dimensions.
    pub open spec fn rank(self) -> int {
        match self {
            Shape::D1(_) => 1,
            Shape::D2(_, _) => 2,
            Shape::D3(_, _, _) => 3,
            Shape::D4(_, _, _, _) => 4,
        }
    }

    /// The size of dimension `i`; zero where there is no such dimension.
    pub open spec fn at(self, i: int) -> usize {
        match self {
            Shape::D1(a) => if i == 0 { a } else { 0 },
            Shape::D2(a, b) => if i == 0 { a } else if i == 1 { b } else { 0 },
            Shape::D3(a, b, c) => if i == 0 { a } else if i == 1 { b } else if i == 2 { c } else {
                0
            },
            Shape::D4(a, b, c, d) => if i == 0 { a } else if i == 1 { b } else if i == 2 {
                c
            } else if i == 3 { d } else { 0 },
        }
    }

    /// The number of elements.
    pub open spec fn count(self) -> int {
        match self {
            Shape::D1(a) => a as int,
            Shape::D2(a, b) => a * b,
            Shape::D3(a, b, c) => a * b * c,
            Shape::D4(a, b, c, d) => a * b * c * d,
        }
    }

    /// The shape with the size of dimension `i` replaced.
    pub open spec fn resized(self, i: int, n: usize) -> Shape {
        match self {
            Shape::D1(a) => if i == 0 { Shape::D1(n) } else { self },
            Shape::D2(a, b) => if i == 0 { Shape::D2(n, b) } else if i == 1 {
                Shape::D2(a, n)
            } else { self },
            Shape::D3(a, b, c) => if i == 0 { Shape::D3(n, b, c) } else if i == 1 {
                Shape::D3(a, n, c)
            } else if i == 2 { Shape::D3(a, b, n) } else { self },
            Shape::D4(a, b, c, d) => if i == 0 { Shape::D4(n, b, c, d) } else if i == 1 {
                Shape::D4(a, n, c, d)
            } else if i == 2 { Shape::D4(a, b, n, d) } else if i == 3 {
                Shape::D4(a, b, c, n)
            } else { self },
        }
    }

    /// The shape with dimensions `i` and `j` exchanged.
    pub open spec fn swapped(self, i: int, j: int) -> Shape {
        self.resized(i, self.at(j)).resized(j, self.at(i))
    }

    /// The shape with a dimension of size one put in at position `i`.
    pub open spec fn with_unit(self, i: int) -> Shape {
        match self {
            Shape::D1(a) => if i == 0 { Shape::D2(1, a) } else { Shape::D2(a, 1) },
            Shape::D2(a, b) => if i == 0 { Shape::D3(1, a, b) } else if i == 1 {
                Shape::D3(a, 1, b)
            } else { Shape::D3(a, b, 1) },
            Shape::D3(a, b, c) => if i == 0 { Shape::D4(1, a, b, c) } else if i == 1 {
                Shape::D4(a, 1, b, c)
            } else if i == 2 { Shape::D4(a, b, 1, c) } else { Shape::D4(a, b, c, 1) },
            Shape::D4(_, _, _, _) => self,
        }
    }

    /// The shape without dimension `i`.
    pub open spec fn without(self, i: int) -> Shape {
        match self {
            Shape::D1(_) => self,
            Shape::D2(a, b) => if i == 0 { Shape::D1(b) } else { Shape::D1(a) },
            Shape::D3(a, b, c) => if i == 0 { Shape::D2(b, c) } else if i == 1 {
                Shape::D2(a, c)
            } else { Shape::D2(a, b) },
            Shape::D4(a, b, c, d) => if i == 0 { Shape::D3(b, c, d) } else if i == 1 {
                Shape::D3(a, c, d)
            } else if i == 2 { Shape::D3(a, b, d) } else { Shape::D3(a, b, c) },
        }
    }

    /// The sizes other than one, in order.
    pub open spec fn sizes_beyond_one(self) -> Seq<usize> {
        match self {
            Shape::D1(a) => Shape::unless_one(a),
            Shape::D2(a, b) => Shape::unless_one(a) + Shape::unless_one(b),
            Shape::D3(a, b, c) => Shape::unless_one(a) + Shape::unless_one(b) + Shape::unless_one(
                c,
            ),
            Shape::D4(a, b, c, d) => Shape::unless_one(a) + Shape::unless_one(b)
                + Shape::unless_one(c) + Shape::unless_one(d),
        }
    }

    /// Whether elementwise operations take operands of these two shapes.
    pub open spec fn joins(self, other: Shape) -> bool {
        &&& self.rank() == other.rank()
        &&& Shape::sizes_agree(self.at(0), other.at(0))
        &&& Shape::sizes_agree(self.at(1), other.at(1))
        &&& Shape::sizes_agree(self.at(2), other.at(2))
        &&& Shape::sizes_agree(self.at(3), other.at(3))
    }

    /// The shape of an elementwise result, each dimension of size one stretched to its partner.
    pub open spec fn joined(self, other: Shape) -> Shape {
        match self {
            Shape::D1(a) => Shape::D1(Shape::joined_size(a, other.at(0))),
            Shape::D2(a, b) => Shape::D2(
                Shape::joined_size(a, other.at(0)),
                Shape::joined_size(b, other.at(1)),
            ),
            Shape::D3(a, b, c) => Shape::D3(
                Shape::joined_size(a, other.at(0)),
                Shape::joined_size(b, other.at(1)),
                Shape::joined_size(c, other.at(2)),
            ),
            Shape::D4(a, b, c, d) => Shape::D4(
                Shape::joined_size(a, other.at(0)),
                Shape::joined_size(b, other.at(1)),
                Shape::joined_size(c, other.at(2)),
                Shape::joined_size(d, other.at(3)),
            ),
        }
    }

    /// The size of dimension `i`.
    pub fn dim(&self, i: usize) -> (r: usize)
        requires
            i < self.rank(),
        ensures
            r == self.at(i as int),
    {
        match *self {
            Shape::D1(a) => a,
            Shape::D2(a, b) => if i == 0 {
                a
            } else {
                b
            },
            Shape::D3(a, b, c) => if i == 0 {
                a
            } else if i == 1 {
                b
            } else {
                c
            },
            Shape::D4(a, b, c, d) => if i == 0 {
                a
            } else if i == 1 {
                b
            } else if i == 2 {
                c
            } else {
                d
            },
        }
    }

    /// The size of dimension `i`; zero where there is no such dimension.
    pub fn size_at(&self, i: usize) -> (r: usize)
        ensures
            r == self.at(i as int),
    {
        let rank: usize = match *self {
            Shape::D1(_) => 1,
            Shape::D2(_, _) => 2,
            Shape::D3(_, _, _) => 3,
            Shape::D4(_, _, _, _) => 4,
        };
        if i < rank {
            self.dim(i)
        } else {
            0
        }
    }

    /// The shape with the size of dimension `i` replaced.
    pub fn resize(&self, i: usize, n: usize) -> (r: Shape)
        requires
            i < self.rank(),
        ensures
            r == self.resized(i as int, n),
    {
        match *self {
            Shape::D1(_) => Shape::D1(n),
            Shape::D2(a, b) => if i == 0 {
                Shape::D2(n, b)
            } else {
                Shape::D2(a, n)
            },
            Shape::D3(a, b, c) => if i == 0 {
                Shape::D3(n, b, c)
            } else if i == 1 {
                Shape::D3(a, n, c)
            } else {
                Shape::D3(a, b, n)
            },
            Shape::D4(a, b, c, d) => if i == 0 {
                Shape::D4(n, b, c, d)
            } else if i == 1 {
                Shape::D4(a, n, c, d)
            } else if i == 2 {
                Shape::D4(a, b, n, d)
            } else {
                Shape::D4(a, b, c, n)
            },
        }
    }

    /// The shape with dimensions `i` and `j` exchanged.
    pub fn swap(&self, i: usize, j: usize) -> (r: Shape)
        requires
            i < self.rank(),
            j < self.rank(),
        ensures
            r == self.swapped(i as int, j as int),
    {
        self.resize(i, self.dim(j)).resize(j, self.dim(i))
    }

    /// The shape with a dimension of size one put in at position `i`.
    pub fn insert_unit(&self, i: usize) -> (r: Shape)
        requires
            i <= self.rank() <= 3,
        ensures
            r == self.with_unit(i as int),
            r.count() == self.count(),
            r.rank() == self.rank() + 1,
    {
        proof {
            match *self {
                Shape::D1(a) => lemma_unit_factors(a, 1, 1),
                Shape::D2(a, b) => lemma_unit_factors(a, b, 1),
                Shape::D3(a, b, c) => lemma_unit_factors(a, b, c),
                Shape::D4(a, b, c, d) => {},
            }
        }
        match *self {
            Shape::D1(a) => if i == 0 {
                Shape::D2(1, a)
            } else {
                Shape::D2(a, 1)
            },
            Shape::D2(a, b) => if i == 0 {
                Shape::D3(1, a, b)
            } else if i == 1 {
                Shape::D3(a, 1, b)
            } else {
                Shape::D3(a, b, 1)
            },
            Shape::D3(a, b, c) => if i == 0 {
                Shape::D4(1, a, b, c)
            } else if i == 1 {
                Shape::D4(a, 1, b, c)
            } else if i == 2 {
                Shape::D4(a, b, 1, c)
            } else {
                Shape::D4(a, b, c, 1)
            },
            Shape::D4(_, _, _, _) => *self,
        }
    }

    /// The shape without dimension `i`, whose size is one.
    pub fn remove_unit(&self, i: usize) -> (r: Shape)
        requires
            i < self.rank(),
            self.rank() >= 2,
            self.at(i as int) == 1,
        ensures
            r == self.without(i as int),
            r.count() == self.count(),
    {
        proof {
            match self.without(i as int) {
                Shape::D1(a) => lemma_unit_factors(a, 1, 1),
                Shape::D2(a, b) => lemma_unit_factors(a, b, 1),
                Shape::D3(a, b, c) => lemma_unit_factors(a, b, c),
                Shape::D4(a, b, c, d) => {},
            }
        }
        match *self {
            Shape::D1(_) => *self,
            Shape::D2(a, b) => if i == 0 {
                Shape::D1(b)
            } else {
                Shape::D1(a)
            },
            Shape::D3(a, b, c) => if i == 0 {
                Shape::D2(b, c)
            } else if i == 1 {
                Shape::D2(a, c)
            } else {
                Shape::D2(a, b)
            },
            Shape::D4(a, b, c, d) => if i == 0 {
                Shape::D3(b, c, d)
            } else if i == 1 {
                Shape::D3(a, c, d)
            } else if i == 2 {
                Shape::D3(a, b, d)
            } else {
                Shape::D3(a, b, c)
            },
        }
    }

    /// The dimensions of sizes other than one, of which there are one or two.
    pub fn beyond_one(&self) -> (r: Shape)
        requires
            1 <= self.sizes_beyond_one().len() <= 2,
        ensures
            self.sizes_beyond_one().len() == 1 ==> r == Shape::D1(self.sizes_beyond_one()[0]),
            self.sizes_beyond_one().len() == 2 ==> r == Shape::D2(
                self.sizes_beyond_one()[0],
                self.sizes_beyond_one()[1],
            ),
            r.count() == self.count(),
        decreases self.rank(),
    {
        match *self {
            Shape::D1(_) => *self,
            Shape::D2(a, b) => if a == 1 || b == 1 {
                let rest = self.remove_unit(if a == 1 { 0 } else { 1 });
                proof {
                    assert(rest.sizes_beyond_one() =~= self.sizes_beyond_one());
                }
                rest.beyond_one()
            } else {
                *self
            },
            Shape::D3(a, b, c) => {
                let unit: usize = if a == 1 { 0 } else if b == 1 { 1 } else { 2 };
                let rest = self.remove_unit(unit);
                proof {
                    assert(rest.sizes_beyond_one() =~= self.sizes_beyond_one());
                }
                rest.beyond_one()
            },
            Shape::D4(a, b, c, d) => {
                let unit: usize = if a == 1 { 0 } else if b == 1 { 1 } else if c == 1 {
                    2
                } else { 3 };
                let rest = self.remove_unit(unit);
                proof {
                    assert(rest.sizes_beyond_one() =~= self.sizes_beyond_one());
                }
                rest.beyond_one()
            },
        }
    }

    /// The shape of an elementwise result.
    pub fn join(&self, other: &Shape) -> (r: Shape)
        requires
            self.joins(*other),
        ensures
            r == self.joined(*other),
    {
        match *self {
            Shape::D1(a) => Shape::D1(Shape::join_size(a, other.dim(0))),
            Shape::D2(a, b) => Shape::D2(
                Shape::join_size(a, other.dim(0)),
                Shape::join_size(b, other.dim(1)),
            ),
            Shape::D3(a, b, c) => Shape::D3(
                Shape::join_size(a, other.dim(0)),
                Shape::join_size(b, other.dim(1)),
                Shape::join_size(c, other.dim(2)),
            ),
            Shape::D4(a, b, c, d) => Shape::D4(
                Shape::join_size(a, other.dim(0)),
                Shape::join_size(b, other.dim(1)),
                Shape::join_size(c, other.dim(2)),
                Shape::join_size(d, other.dim(3)),
            ),
        }
    }
}

} // verus!

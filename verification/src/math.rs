//! Numbers, vectors and rectangles of the drawing plane.
use vstd::prelude::*;

verus! {

/// The number type that coordinates, sizes and scales are made of.
///
/// Every operation is total and depends on its operands alone. Nothing else is
/// asked of the arithmetic, so a type that rounds or saturates qualifies; the
/// order `sorts_before` has to be a total one, and turning the sign of a
/// negative number must not give a negative number.
pub trait Scalar: Copy {
    spec fn spec_from_int(n: i64) -> Self;

    spec fn spec_epsilon() -> Self;

    spec fn spec_plus(self, other: Self) -> Self;

    spec fn spec_minus(self, other: Self) -> Self;

    spec fn spec_times(self, other: Self) -> Self;

    spec fn spec_over(self, other: Self) -> Self;

    spec fn spec_negate(self) -> Self;

    spec fn spec_square_root(self) -> Self;

    spec fn spec_larger_of(self, other: Self) -> Self;

    spec fn spec_less_than(self, other: Self) -> bool;

    spec fn spec_at_most(self, other: Self) -> bool;

    spec fn spec_same_as(self, other: Self) -> bool;

    spec fn spec_sorts_before(self, other: Self) -> bool;

    spec fn spec_snap_direction(x: Self, y: Self) -> (Self, Self);

    /// The number that stands for the integer `n`.
    fn from_int(n: i64) -> (r: Self)
        ensures
            r == Self::spec_from_int(n),
    ;

    /// The smallest difference that counts as a length.
    fn epsilon() -> (r: Self)
        ensures
            r == Self::spec_epsilon(),
    ;

    fn plus(self, other: Self) -> (r: Self)
        ensures
            r == self.spec_plus(other),
    ;

    fn minus(self, other: Self) -> (r: Self)
        ensures
            r == self.spec_minus(other),
    ;

    fn times(self, other: Self) -> (r: Self)
        ensures
            r == self.spec_times(other),
    ;

    fn over(self, other: Self) -> (r: Self)
        ensures
            r == self.spec_over(other),
    ;

    fn negate(self) -> (r: Self)
        ensures
            r == self.spec_negate(),
    ;

    fn square_root(self) -> (r: Self)
        ensures
            r == self.spec_square_root(),
    ;

    fn larger_of(self, other: Self) -> (r: Self)
        ensures
            r == self.spec_larger_of(other),
    ;

    /// The comparison `<`.
    fn less_than(self, other: Self) -> (r: bool)
        ensures
            r == self.spec_less_than(other),
    ;

    /// The comparison `<=`.
    fn at_most(self, other: Self) -> (r: bool)
        ensures
            r == self.spec_at_most(other),
    ;

    /// The comparison `==`.
    fn same_as(self, other: Self) -> (r: bool)
        ensures
            r == self.spec_same_as(other),
    ;

    /// The strict part of the order by which numbers are ranked.
    fn sorts_before(self, other: Self) -> (r: bool)
        ensures
            r == self.spec_sorts_before(other),
    ;

    /// The vector `(x, y)`, turned to the nearest multiple of 15 degrees.
    fn snap_direction(x: Self, y: Self) -> (r: (Self, Self))
        ensures
            r == Self::spec_snap_direction(x, y),
    ;

    /// `sorts_before` never ranks two numbers both ways.
    proof fn lemma_sorts_one_way(a: Self, b: Self)
        ensures
            !(a.spec_sorts_before(b) && b.spec_sorts_before(a)),
    ;

    /// Whatever sorts before `b` sorts before `c`, unless `c` sorts before `b`.
    proof fn lemma_sorts_through(a: Self, b: Self, c: Self)
        ensures
            a.spec_sorts_before(b) && !c.spec_sorts_before(b) ==> a.spec_sorts_before(c),
    ;

    /// A negative number turned around is not negative.
    proof fn lemma_negate_negative(a: Self)
        ensures
            a.spec_less_than(Self::spec_from_int(0)) ==> !a.spec_negate().spec_less_than(
                Self::spec_from_int(0),
            ),
    ;
}

/// A point or a displacement of the plane.
#[derive(Debug, Clone, Copy, PartialEq)]
pub struct Vec2D<S> {
    pub x: S,
    pub y: S,
}

impl<S: Scalar> Vec2D<S> {
    pub open spec fn spec_zero() -> Self {
        Vec2D { x: S::spec_from_int(0), y: S::spec_from_int(0) }
    }

    pub open spec fn spec_plus(self, other: Self) -> Self {
        Vec2D { x: self.x.spec_plus(other.x), y: self.y.spec_plus(other.y) }
    }

    pub open spec fn spec_minus(self, other: Self) -> Self {
        Vec2D { x: self.x.spec_minus(other.x), y: self.y.spec_minus(other.y) }
    }

    pub open spec fn spec_times(self, factor: S) -> Self {
        Vec2D { x: self.x.spec_times(factor), y: self.y.spec_times(factor) }
    }

    pub open spec fn spec_over(self, factor: S) -> Self {
        Vec2D { x: self.x.spec_over(factor), y: self.y.spec_over(factor) }
    }

    pub open spec fn spec_is_zero(self) -> bool {
        &&& self.x.spec_same_as(S::spec_from_int(0))
        &&& self.y.spec_same_as(S::spec_from_int(0))
    }

    pub open spec fn spec_norm2(self) -> S {
        self.x.spec_times(self.x).spec_plus(self.y.spec_times(self.y))
    }

    pub open spec fn spec_distance_to(self, other: Self) -> S {
        self.spec_minus(other).spec_norm2().spec_square_root()
    }

    pub open spec fn spec_snapped_vector_15deg(self) -> Self {
        let (x, y) = S::spec_snap_direction(self.x, self.y);
        Vec2D { x, y }
    }

    pub fn new(x: S, y: S) -> (r: Self)
        ensures
            r == (Vec2D { x, y }),
    {
        Vec2D { x, y }
    }

    pub fn zero() -> (r: Self)
        ensures
            r == Self::spec_zero(),
    {
        Vec2D { x: S::from_int(0), y: S::from_int(0) }
    }

    pub fn plus(self, other: Self) -> (r: Self)
        ensures
            r == self.spec_plus(other),
    {
        Vec2D { x: self.x.plus(other.x), y: self.y.plus(other.y) }
    }

    pub fn minus(self, other: Self) -> (r: Self)
        ensures
            r == self.spec_minus(other),
    {
        Vec2D { x: self.x.minus(other.x), y: self.y.minus(other.y) }
    }

    pub fn times(self, factor: S) -> (r: Self)
        ensures
            r == self.spec_times(factor),
    {
        Vec2D { x: self.x.times(factor), y: self.y.times(factor) }
    }

    pub fn over(self, factor: S) -> (r: Self)
        ensures
            r == self.spec_over(factor),
    {
        Vec2D { x: self.x.over(factor), y: self.y.over(factor) }
    }

    pub fn is_zero(self) -> (r: bool)
        ensures
            r == self.spec_is_zero(),
    {
        self.x.same_as(S::from_int(0)) && self.y.same_as(S::from_int(0))
    }

    /// The square of the length.
    pub fn norm2(self) -> (r: S)
        ensures
            r == self.spec_norm2(),
    {
        self.x.times(self.x).plus(self.y.times(self.y))
    }

    pub fn distance_to(self, other: Self) -> (r: S)
        ensures
            r == self.spec_distance_to(other),
    {
        self.minus(other).norm2().square_root()
    }

    /// The vector turned to the nearest multiple of 15 degrees.
    pub fn snapped_vector_15deg(self) -> (r: Self)
        ensures
            r == self.spec_snapped_vector_15deg(),
    {
        let (x, y) = S::snap_direction(self.x, self.y);
        Vec2D { x, y }
    }
}

/// One side of a rectangle, written as a start and a length that is not negative.
pub open spec fn positive_span<S: Scalar>(start: S, length: S) -> (S, S) {
    if length.spec_less_than(S::spec_from_int(0)) {
        (start.spec_plus(length), length.spec_negate())
    } else {
        (start, length)
    }
}

/// The rectangle at `pos` that reaches over `size`, written with its top left
/// corner and a size that is not negative.
pub fn rect_ensure_positive_size<S: Scalar>(pos: Vec2D<S>, size: Vec2D<S>) -> (r: (
    Vec2D<S>,
    Vec2D<S>,
))
    ensures
        (r.0.x, r.1.x) == positive_span(pos.x, size.x),
        (r.0.y, r.1.y) == positive_span(pos.y, size.y),
        !r.1.x.spec_less_than(S::spec_from_int(0)),
        !r.1.y.spec_less_than(S::spec_from_int(0)),
{
    let mut pos = pos;
    let mut size = size;
    if size.x.less_than(S::from_int(0)) {
        proof {
            S::lemma_negate_negative(size.x);
        }
        pos.x = pos.x.plus(size.x);
        size.x = size.x.negate();
    }
    if size.y.less_than(S::from_int(0)) {
        proof {
            S::lemma_negate_negative(size.y);
        }
        pos.y = pos.y.plus(size.y);
        size.y = size.y.negate();
    }
    (pos, size)
}

/// `count` tells of some numbers how many units they are worth. Sums, differences
/// and opposites of these are exact while they are worth less than `limit` units,
/// and the numbers compare as their counts do.
///
/// Of the fixed-point numbers this holds for all, by their steps; of floating-point
/// numbers for the integers, up to the largest below which all are there.
pub open spec fn counts_exactly<S: Scalar>(count: spec_fn(S) -> Option<int>, limit: int) -> bool {
    &&& count(S::spec_from_int(0)) == Some(0int)
    &&& forall|a: S, b: S|
        count(a) is Some && count(b) is Some && -limit < count(a)->0 + count(b)->0 < limit
            ==> count(#[trigger] a.spec_plus(b)) == Some(count(a)->0 + count(b)->0)
    &&& forall|a: S, b: S|
        count(a) is Some && count(b) is Some && -limit < count(a)->0 - count(b)->0 < limit
            ==> count(#[trigger] a.spec_minus(b)) == Some(count(a)->0 - count(b)->0)
    &&& forall|a: S|
        count(a) is Some && -limit < count(a)->0 < limit ==> count(#[trigger] a.spec_negate())
            == Some(-count(a)->0)
    &&& forall|a: S, b: S|
        count(a) is Some && count(b) is Some ==> (#[trigger] a.spec_less_than(b) <==> count(a)->0
            < count(b)->0)
    &&& forall|a: S, b: S|
        count(a) is Some && count(b) is Some ==> (#[trigger] a.spec_at_most(b) <==> count(a)->0
            <= count(b)->0)
    &&& forall|a: S, b: S|
        count(a) is Some && count(b) is Some ==> (#[trigger] a.spec_same_as(b) <==> count(a)->0
            == count(b)->0)
    &&& forall|a: S, b: S|
        count(a) is Some && count(b) is Some ==> count(#[trigger] a.spec_larger_of(b)) == Some(
            if count(a)->0 < count(b)->0 {
                count(b)->0
            } else {
                count(a)->0
            },
        )
}

/// Rounding never turns the order of two `finite` numbers around, neither when a
/// third one is added to both nor when a length is halved, and zero is neutral.
///
/// This holds of all fixed-point numbers, and of the finite floating-point numbers.
pub open spec fn keeps_order_of<S: Scalar>(finite: spec_fn(S) -> bool) -> bool {
    let zero = S::spec_from_int(0);
    &&& finite(zero)
    &&& forall|a: S| finite(a) ==> #[trigger] a.spec_at_most(a)
    &&& forall|a: S, b: S, c: S|
        finite(a) && finite(b) && finite(c) && #[trigger] a.spec_at_most(b)
            && #[trigger] b.spec_at_most(c) ==> a.spec_at_most(c)
    &&& forall|a: S| finite(a) && !(#[trigger] a.spec_less_than(zero)) ==> zero.spec_at_most(a)
    &&& forall|a: S|
        finite(a) ==> {
            let sum = #[trigger] a.spec_plus(zero);
            finite(sum) && a.spec_at_most(sum) && sum.spec_at_most(a)
        }
    &&& forall|a: S|
        finite(a) ==> {
            let difference = #[trigger] a.spec_minus(zero);
            finite(difference) && difference.spec_at_most(a)
        }
    &&& forall|x: S, a: S, b: S|
        finite(x) && finite(a) && finite(b) && finite(#[trigger] x.spec_plus(a)) && finite(
            #[trigger] x.spec_plus(b),
        ) && a.spec_at_most(b) ==> x.spec_plus(a).spec_at_most(x.spec_plus(b))
    &&& forall|x: S, a: S, b: S|
        finite(x) && finite(a) && finite(#[trigger] x.spec_plus(b)) && zero.spec_at_most(a)
            && a.spec_at_most(b) ==> finite(#[trigger] x.spec_plus(a))
    &&& forall|w: S|
        finite(w) && zero.spec_at_most(w) ==> {
            let half = #[trigger] w.spec_over(S::spec_from_int(2));
            finite(half) && zero.spec_at_most(half) && half.spec_at_most(w)
        }
}

} // verus!

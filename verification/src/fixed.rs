//! Fixed-point coordinates.
use vstd::prelude::*;

use crate::math::{counts_exactly, keeps_order_of, Scalar};

verus! {

/// How many steps of a `Fixed` make one pixel.
pub const STEPS: i64 = 64;

/// A coordinate in steps of one sixty-fourth of a pixel.
///
/// Results round down to a whole step, and results that do not fit stay at the
/// nearest end of the range.
#[derive(Debug, Clone, Copy, PartialEq, Eq, Structural)]
pub struct Fixed {
    pub raw: i64,
}

pub open spec fn saturated(value: int) -> Fixed {
    if value < i64::MIN {
        Fixed { raw: i64::MIN }
    } else if value > i64::MAX {
        Fixed { raw: i64::MAX }
    } else {
        Fixed { raw: value as i64 }
    }
}

/// `r` is the largest integer whose square is at most `n`.
pub open spec fn is_integer_root(n: int, r: int) -> bool {
    &&& 0 <= r
    &&& r * r <= n
    &&& n < (r + 1) * (r + 1)
}

/// The largest integer whose square is at most `n`, and zero for negative `n`.
pub open spec fn integer_root(n: int) -> int {
    if n <= 0 {
        0
    } else {
        choose|r: int| is_integer_root(n, r)
    }
}

fn saturate(value: i128) -> (r: Fixed)
    ensures
        r == saturated(value as int),
{
    if value < i64::MIN as i128 {
        Fixed { raw: i64::MIN }
    } else if value > i64::MAX as i128 {
        Fixed { raw: i64::MAX }
    } else {
        Fixed { raw: value as i64 }
    }
}

/// `value / divisor`, rounded down.
fn divide_down(value: i128, divisor: i128) -> (r: i128)
    requires
        0 < divisor,
        -0x8000_0000_0000_0000_0000_0000_0000_0000 < value,
    ensures
        r == value as int / divisor as int,
{
    let d: u128 = divisor as u128;
    if value >= 0 {
        let q: u128 = (value as u128) / d;
        assert(q <= value) by (nonlinear_arith)
            requires
                q == value as int / d as int,
                0 < d,
                0 <= value,
        ;
        q as i128
    } else {
        let v: u128 = (-(value + 1)) as u128;
        let q: u128 = v / d;
        assert(q <= v) by (nonlinear_arith)
            requires
                q == v as int / d as int,
                0 < d,
        ;
        assert(-(q as int) - 1 == value as int / divisor as int) by (nonlinear_arith)
            requires
                q == v as int / d as int,
                v == -(value as int) - 1,
                0 < d,
                d == divisor,
        ;
        -(q as i128) - 1
    }
}

proof fn lemma_product_fits(a: i64, b: i64)
    ensures
        -0x4000_0000_0000_0000_0000_0000_0000_0000 <= a * b
            <= 0x4000_0000_0000_0000_0000_0000_0000_0000,
{
    assert(-0x4000_0000_0000_0000_0000_0000_0000_0000 <= a * b
        <= 0x4000_0000_0000_0000_0000_0000_0000_0000) by (nonlinear_arith)
        requires
            -0x8000_0000_0000_0000 <= a <= 0x7fff_ffff_ffff_ffff,
            -0x8000_0000_0000_0000 <= b <= 0x7fff_ffff_ffff_ffff,
    ;
}

proof fn lemma_integer_root_unique(n: int, r: int)
    requires
        is_integer_root(n, r),
    ensures
        r == integer_root(n),
{
    if n <= 0 {
        assert(r == 0) by (nonlinear_arith)
            requires
                0 <= r,
                r * r <= n,
                n <= 0,
        ;
    } else {
        let c = integer_root(n);
        assert(is_integer_root(n, c));
        assert(r == c) by (nonlinear_arith)
            requires
                0 <= r,
                0 <= c,
                r * r <= n,
                n < (r + 1) * (r + 1),
                c * c <= n,
                n < (c + 1) * (c + 1),
        ;
    }
}

/// The largest integer whose square is at most `n`.
fn compute_root(n: u128) -> (r: u128)
    ensures
        r == integer_root(n as int),
        r <= 0xffff_ffff_ffff_ffff,
{
    let mut low: u128 = 0;
    let mut high: u128 = 0x1_0000_0000_0000_0000;
    assert(n < high * high) by (nonlinear_arith)
        requires
            n <= 0xffff_ffff_ffff_ffff_ffff_ffff_ffff_ffff,
            high == 0x1_0000_0000_0000_0000,
    ;
    while high - low > 1
        invariant
            low < high <= 0x1_0000_0000_0000_0000,
            low * low <= n,
            n < high * high,
        decreases high - low,
    {
        let middle: u128 = (low + high) / 2;
        assert(0 <= middle * middle <= 0xffff_ffff_ffff_ffff_ffff_ffff_ffff_ffff)
            by (nonlinear_arith)
            requires
                middle <= 0xffff_ffff_ffff_ffff,
        ;
        if middle * middle <= n {
            low = middle;
        } else {
            high = middle;
        }
    }
    proof {
        assert(high == low + 1);
        lemma_integer_root_unique(n as int, low as int);
    }
    low
}

/// The length of the vectors that `cosine` and `sine` describe.
pub const UNIT: i128 = 1_048_576;

/// The cosine of `k` times 15 degrees, in parts of `UNIT`.
pub open spec fn cosine(k: int) -> int {
    if k == 0 {
        1_048_576
    } else if k == 1 || k == 23 {
        1_012_847
    } else if k == 2 || k == 22 {
        908_093
    } else if k == 3 || k == 21 {
        741_455
    } else if k == 4 || k == 20 {
        524_288
    } else if k == 5 || k == 19 {
        271_391
    } else if k == 6 || k == 18 {
        0
    } else if k == 7 || k == 17 {
        -271_391
    } else if k == 8 || k == 16 {
        -524_288
    } else if k == 9 || k == 15 {
        -741_455
    } else if k == 10 || k == 14 {
        -908_093
    } else if k == 11 || k == 13 {
        -1_012_847
    } else {
        -1_048_576
    }
}

/// The sine of `k` times 15 degrees, in parts of `UNIT`.
pub open spec fn sine(k: int) -> int {
    cosine(
        if k < 6 {
            k + 18
        } else {
            k - 6
        },
    )
}

/// How far `(x, y)` reaches in the direction of `k` times 15 degrees.
pub open spec fn reach(x: int, y: int, k: int) -> int {
    x * cosine(k) + y * sine(k)
}

/// The direction among the first `n + 1` multiples of 15 degrees in which `(x, y)`
/// reaches farthest.
pub open spec fn nearest_direction(x: int, y: int, n: nat) -> int
    decreases n,
{
    if n == 0 {
        0
    } else {
        let before = nearest_direction(x, y, (n - 1) as nat);
        if reach(x, y, n as int) > reach(x, y, before) {
            n as int
        } else {
            before
        }
    }
}

/// No multiple of 15 degrees is nearer to the direction of a vector than the one
/// that it is turned to.
pub proof fn lemma_nearest_direction(x: int, y: int, n: nat)
    ensures
        0 <= nearest_direction(x, y, n) <= n,
        forall|k: int|
            0 <= k <= n ==> #[trigger] reach(x, y, k) <= reach(
                x,
                y,
                nearest_direction(x, y, n),
            ),
    decreases n,
{
    if n > 0 {
        lemma_nearest_direction(x, y, (n - 1) as nat);
    }
}

fn compute_cosine(k: usize) -> (r: i128)
    requires
        k < 24,
    ensures
        r == cosine(k as int),
        -UNIT <= r <= UNIT,
{
    match k {
        0 => 1_048_576,
        1 | 23 => 1_012_847,
        2 | 22 => 908_093,
        3 | 21 => 741_455,
        4 | 20 => 524_288,
        5 | 19 => 271_391,
        6 | 18 => 0,
        7 | 17 => -271_391,
        8 | 16 => -524_288,
        9 | 15 => -741_455,
        10 | 14 => -908_093,
        11 | 13 => -1_012_847,
        _ => -1_048_576,
    }
}

fn compute_sine(k: usize) -> (r: i128)
    requires
        k < 24,
    ensures
        r == sine(k as int),
        -UNIT <= r <= UNIT,
{
    if k < 6 {
        compute_cosine(k + 18)
    } else {
        compute_cosine(k - 6)
    }
}

/// A product with one factor in the range of a unit vector fits with room to spare.
proof fn lemma_unit_product_fits(a: int, c: int)
    requires
        -0x1_0000_0000_0000_0000 <= a <= 0x1_0000_0000_0000_0000,
        -UNIT <= c <= UNIT,
    ensures
        -0x10_0000_0000_0000_0000_0000 <= a * c <= 0x10_0000_0000_0000_0000_0000,
{
    assert(-0x10_0000_0000_0000_0000_0000 <= a * c <= 0x10_0000_0000_0000_0000_0000)
        by (nonlinear_arith)
        requires
            -0x1_0000_0000_0000_0000 <= a <= 0x1_0000_0000_0000_0000,
            -1_048_576 <= c <= 1_048_576,
    ;
}

fn compute_reach(x: i64, y: i64, k: usize) -> (r: i128)
    requires
        k < 24,
    ensures
        r == reach(x as int, y as int, k as int),
{
    let c = compute_cosine(k);
    let s = compute_sine(k);
    proof {
        lemma_unit_product_fits(x as int, c as int);
        lemma_unit_product_fits(y as int, s as int);
    }
    x as i128 * c + y as i128 * s
}

fn compute_nearest_direction(x: i64, y: i64) -> (r: usize)
    ensures
        r == nearest_direction(x as int, y as int, 23),
        r < 24,
{
    let mut best: usize = 0;
    let mut k: usize = 1;
    while k < 24
        invariant
            1 <= k <= 24,
            best < k,
            best == nearest_direction(x as int, y as int, (k - 1) as nat),
        decreases 24 - k,
    {
        if compute_reach(x, y, k) > compute_reach(x, y, best) {
            best = k;
        }
        k = k + 1;
    }
    best
}

/// The square of a number, without its sign.
fn square(a: i64) -> (r: u128)
    ensures
        r == a * a,
        r <= 0x4000_0000_0000_0000_0000_0000_0000_0000,
{
    proof {
        lemma_product_fits(a, a);
        assert(a * a >= 0) by (nonlinear_arith);
    }
    let product: i128 = a as i128 * a as i128;
    product as u128
}

impl Scalar for Fixed {
    open spec fn spec_from_int(n: i64) -> Self {
        saturated(n * STEPS)
    }

    open spec fn spec_epsilon() -> Self {
        Fixed { raw: 1 }
    }

    open spec fn spec_plus(self, other: Self) -> Self {
        saturated(self.raw + other.raw)
    }

    open spec fn spec_minus(self, other: Self) -> Self {
        saturated(self.raw - other.raw)
    }

    open spec fn spec_times(self, other: Self) -> Self {
        saturated((self.raw * other.raw) / (STEPS as int))
    }

    /// A division by zero gives the end of the range on the side of the dividend.
    open spec fn spec_over(self, other: Self) -> Self {
        if other.raw > 0 {
            saturated((self.raw * STEPS) / (other.raw as int))
        } else if other.raw < 0 {
            saturated((-(self.raw * STEPS)) / (-(other.raw as int)))
        } else if self.raw > 0 {
            Fixed { raw: i64::MAX }
        } else if self.raw < 0 {
            Fixed { raw: i64::MIN }
        } else {
            Fixed { raw: 0 }
        }
    }

    open spec fn spec_negate(self) -> Self {
        saturated(-self.raw)
    }

    open spec fn spec_square_root(self) -> Self {
        saturated(integer_root(self.raw * STEPS))
    }

    open spec fn spec_larger_of(self, other: Self) -> Self {
        if self.raw < other.raw {
            other
        } else {
            self
        }
    }

    open spec fn spec_less_than(self, other: Self) -> bool {
        self.raw < other.raw
    }

    open spec fn spec_at_most(self, other: Self) -> bool {
        self.raw <= other.raw
    }

    open spec fn spec_same_as(self, other: Self) -> bool {
        self.raw == other.raw
    }

    open spec fn spec_sorts_before(self, other: Self) -> bool {
        self.raw < other.raw
    }

    /// The length stays, up to rounding.
    open spec fn spec_snap_direction(x: Self, y: Self) -> (Self, Self) {
        let length = integer_root(x.raw * x.raw + y.raw * y.raw);
        let k = nearest_direction(x.raw as int, y.raw as int, 23);
        (
            saturated((length * cosine(k)) / (UNIT as int)),
            saturated((length * sine(k)) / (UNIT as int)),
        )
    }

    fn from_int(n: i64) -> (r: Self) {
        proof {
            lemma_product_fits(n, STEPS);
        }
        saturate(n as i128 * STEPS as i128)
    }

    fn epsilon() -> (r: Self) {
        Fixed { raw: 1 }
    }

    fn plus(self, other: Self) -> (r: Self) {
        saturate(self.raw as i128 + other.raw as i128)
    }

    fn minus(self, other: Self) -> (r: Self) {
        saturate(self.raw as i128 - other.raw as i128)
    }

    fn times(self, other: Self) -> (r: Self) {
        proof {
            lemma_product_fits(self.raw, other.raw);
        }
        saturate(divide_down(self.raw as i128 * other.raw as i128, STEPS as i128))
    }

    fn over(self, other: Self) -> (r: Self) {
        proof {
            lemma_product_fits(self.raw, STEPS);
        }
        let scaled: i128 = self.raw as i128 * STEPS as i128;
        assert(scaled == self.raw * 64);
        if other.raw > 0 {
            saturate(divide_down(scaled, other.raw as i128))
        } else if other.raw < 0 {
            saturate(divide_down(-scaled, -(other.raw as i128)))
        } else if self.raw > 0 {
            Fixed { raw: i64::MAX }
        } else if self.raw < 0 {
            Fixed { raw: i64::MIN }
        } else {
            Fixed { raw: 0 }
        }
    }

    fn negate(self) -> (r: Self) {
        saturate(-(self.raw as i128))
    }

    fn square_root(self) -> (r: Self) {
        proof {
            lemma_product_fits(self.raw, STEPS);
        }
        let scaled: i128 = self.raw as i128 * STEPS as i128;
        assert(scaled == self.raw * 64);
        if scaled <= 0 {
            Fixed { raw: 0 }
        } else {
            saturate(compute_root(scaled as u128) as i128)
        }
    }

    fn larger_of(self, other: Self) -> (r: Self) {
        if self.raw < other.raw {
            other
        } else {
            self
        }
    }

    fn less_than(self, other: Self) -> (r: bool) {
        self.raw < other.raw
    }

    fn at_most(self, other: Self) -> (r: bool) {
        self.raw <= other.raw
    }

    fn same_as(self, other: Self) -> (r: bool) {
        self.raw == other.raw
    }

    fn sorts_before(self, other: Self) -> (r: bool) {
        self.raw < other.raw
    }

    fn snap_direction(x: Self, y: Self) -> (r: (Self, Self)) {
        let length: i128 = compute_root(square(x.raw) + square(y.raw)) as i128;
        let k: usize = compute_nearest_direction(x.raw, y.raw);
        let c = compute_cosine(k);
        let s = compute_sine(k);
        proof {
            lemma_unit_product_fits(length as int, c as int);
            lemma_unit_product_fits(length as int, s as int);
        }
        (saturate(divide_down(length * c, UNIT)), saturate(divide_down(length * s, UNIT)))
    }

    proof fn lemma_sorts_one_way(a: Self, b: Self) {
    }

    proof fn lemma_sorts_through(a: Self, b: Self, c: Self) {
    }

    proof fn lemma_negate_negative(a: Self) {
    }
}

/// The steps that a number is made of.
pub open spec fn steps_of() -> spec_fn(Fixed) -> Option<int> {
    |a: Fixed| Some(a.raw as int)
}

/// Fixed-point numbers are exact in their steps, over the whole range.
pub proof fn lemma_fixed_counts_exactly()
    ensures
        counts_exactly::<Fixed>(steps_of(), 0x8000_0000_0000_0000),
{
}

/// Rounding and saturation never turn the order of fixed-point numbers around.
pub proof fn lemma_fixed_keeps_order()
    ensures
        keeps_order_of::<Fixed>(|a: Fixed| true),
{
    assert forall|w: Fixed| Fixed::spec_from_int(0).spec_at_most(w) implies {
        let half = #[trigger] w.spec_over(Fixed::spec_from_int(2));
        Fixed::spec_from_int(0).spec_at_most(half) && half.spec_at_most(w)
    } by {
        let n = w.raw as int;
        assert(0 <= (n * 64) / 128 <= n);
    }
}

/// Every number that is not negative has an integer root.
proof fn lemma_some_root(n: nat) -> (r: int)
    ensures
        is_integer_root(n as int, r),
    decreases n,
{
    if n == 0 {
        0
    } else {
        let r = lemma_some_root((n - 1) as nat);
        let next = r + 1;
        assert((next + 1) * (next + 1) == next * next + 2 * next + 1) by (nonlinear_arith);
        if next * next <= n {
            next
        } else {
            r
        }
    }
}

/// The integer root is what its name says.
pub proof fn lemma_integer_root(n: int)
    requires
        0 <= n,
    ensures
        is_integer_root(n, integer_root(n)),
{
    let r = lemma_some_root(n as nat);
    lemma_integer_root_unique(n, r);
}

/// Products, quotients and roots of fixed-point numbers are rounded down to whole
/// steps, as long as they fit.
pub proof fn lemma_fixed_rounds_down(a: Fixed, b: Fixed)
    requires
        -0x8000_0000 < a.raw < 0x8000_0000,
        -0x8000_0000 < b.raw < 0x8000_0000,
    ensures
        a.spec_times(b).raw * STEPS <= a.raw * b.raw < (a.spec_times(b).raw + 1) * STEPS,
        0 < b.raw ==> a.spec_over(b).raw * b.raw <= a.raw * STEPS < (a.spec_over(b).raw + 1)
            * b.raw,
        0 <= a.raw ==> a.spec_square_root().raw * a.spec_square_root().raw <= a.raw * STEPS < (
        a.spec_square_root().raw + 1) * (a.spec_square_root().raw + 1),
{
    let product = a.raw * b.raw;
    assert(-0x4000_0000_0000_0000 <= product <= 0x4000_0000_0000_0000) by (nonlinear_arith)
        requires
            product == a.raw * b.raw,
            -0x8000_0000 < a.raw < 0x8000_0000,
            -0x8000_0000 < b.raw < 0x8000_0000,
    ;
    if 0 < b.raw {
        let n = a.raw * 64;
        let d = b.raw as int;
        let q = n / d;
        assert(q * d <= n < (q + 1) * d) by (nonlinear_arith)
            requires
                0 < d,
                q == n / d,
        ;
        assert(-0x40_0000_0000 <= q <= 0x40_0000_0000) by (nonlinear_arith)
            requires
                0 < d,
                q == n / d,
                -0x20_0000_0000 <= n <= 0x20_0000_0000,
        ;
    }
    if 0 <= a.raw {
        let n = a.raw * 64;
        lemma_integer_root(n);
        let r = integer_root(n);
        assert(r <= 0x20_0000_0000) by (nonlinear_arith)
            requires
                0 <= r,
                r * r <= n,
                n <= 0x20_0000_0000,
        ;
    }
}

/// The table of directions is that of the unit circle: it is symmetric, its vectors have
/// the length of a unit, and their angles double as they should, up to rounding.
pub proof fn lemma_table_of_directions(k: int)
    requires
        0 <= k < 24,
    ensures
        ({
            let (c, s) = (cosine(k), sine(k));
            &&& -0x20_0000 <= c * c + s * s - 1_048_576 * 1_048_576 <= 0x20_0000
            &&& 0 < k ==> cosine(24 - k) == c && sine(24 - k) == -s
            &&& k < 12 ==> cosine(k + 12) == -c && sine(k + 12) == -s
            &&& k < 18 ==> cosine(k + 6) == -s && sine(k + 6) == c
            // It falls over the first half of the circle, and twice the angle has the
            // cosine that it should have.
            &&& k < 12 ==> cosine(k + 1) < c
            &&& k < 12 ==> -0x20_0000 <= 2 * (c * c) - 1_048_576 * 1_048_576 - 1_048_576 * cosine(
                2 * k,
            ) <= 0x20_0000
        }),
{
    // Each number of the table is looked at in turn.
    if k == 0 {
        assert(cosine(0) * cosine(0) == 1_099_511_627_776);
    } else if k == 1 {
        assert(cosine(1) * cosine(1) == 1_025_859_045_409);
    } else if k == 2 {
        assert(cosine(2) * cosine(2) == 824_632_896_649);
    } else if k == 3 {
        assert(cosine(3) * cosine(3) == 549_755_517_025);
    } else if k == 4 {
        assert(cosine(4) * cosine(4) == 274_877_906_944);
    } else if k == 5 {
        assert(cosine(5) * cosine(5) == 73_653_074_881);
    } else if k == 6 {
        assert(cosine(6) * cosine(6) == 0);
    } else if k == 7 {
        assert(cosine(7) * cosine(7) == 73_653_074_881) by (nonlinear_arith)
            requires
                cosine(7) == -271_391,
        ;
    } else if k == 8 {
        assert(cosine(8) * cosine(8) == 274_877_906_944) by (nonlinear_arith)
            requires
                cosine(8) == -524_288,
        ;
    } else if k == 9 {
        assert(cosine(9) * cosine(9) == 549_755_517_025) by (nonlinear_arith)
            requires
                cosine(9) == -741_455,
        ;
    } else if k == 10 {
        assert(cosine(10) * cosine(10) == 824_632_896_649) by (nonlinear_arith)
            requires
                cosine(10) == -908_093,
        ;
    } else if k == 11 {
        assert(cosine(11) * cosine(11) == 1_025_859_045_409) by (nonlinear_arith)
            requires
                cosine(11) == -1_012_847,
        ;
    }
}

/// A vector along an axis already points to a multiple of 15 degrees, and stays.
pub proof fn lemma_vectors_along_axes_stay(n: i64)
    requires
        0 < n < 0x8000_0000,
    ensures
        Fixed::spec_snap_direction((Fixed { raw: n }), (Fixed { raw: 0 })) == (
            Fixed { raw: n },
            Fixed { raw: 0 },
        ),
        Fixed::spec_snap_direction((Fixed { raw: 0 }), (Fixed { raw: n })) == (
            Fixed { raw: 0 },
            Fixed { raw: n },
        ),
        Fixed::spec_snap_direction((Fixed { raw: (-n) as i64 }), (Fixed { raw: 0 })) == (
            Fixed { raw: (-n) as i64 },
            Fixed { raw: 0 },
        ),
        Fixed::spec_snap_direction((Fixed { raw: 0 }), (Fixed { raw: (-n) as i64 })) == (
            Fixed { raw: 0 },
            Fixed { raw: (-n) as i64 },
        ),
{
    let m = n as int;
    assert(0 * 0 == 0);
    assert((-m) * (-m) == m * m) by (nonlinear_arith);
    assert((m + 1) * (m + 1) > m * m && m * m > 0) by (nonlinear_arith)
        requires
            0 < m,
    ;
    lemma_integer_root_unique(m * m, m);
    lemma_axis_direction(m, 0, 0);
    lemma_axis_direction(0, m, 6);
    lemma_axis_direction(-m, 0, 12);
    lemma_axis_direction(0, -m, 18);
    assert((m * 1_048_576) / 1_048_576 == m && (m * -1_048_576) / 1_048_576 == -m && (m * 0)
        / 1_048_576 == 0);
}

proof fn lemma_axis_direction(x: int, y: int, k: int)
    requires
        k == 0 || k == 6 || k == 12 || k == 18,
        (k == 0 && x > 0 && y == 0) || (k == 6 && x == 0 && y > 0) || (k == 12 && x < 0 && y == 0)
            || (k == 18 && x == 0 && y < 0),
    ensures
        nearest_direction(x, y, 23) == k,
{
    lemma_nearest_direction(x, y, 23);
    let best = nearest_direction(x, y, 23);
    assert(reach(x, y, k) <= reach(x, y, best));
    let (c, s) = (cosine(best), sine(best));
    let m = if x > 0 {
        x
    } else if x < 0 {
        -x
    } else if y > 0 {
        y
    } else {
        -y
    };
    let f = if k == 0 {
        c
    } else if k == 6 {
        s
    } else if k == 12 {
        -c
    } else {
        -s
    };
    assert(reach(x, y, k) == m * 1_048_576) by (nonlinear_arith)
        requires
            reach(x, y, k) == x * cosine(k) + y * sine(k),
            (k == 0 && x == m && y == 0 && cosine(k) == 1_048_576) || (k == 6 && x == 0 && y == m
                && sine(k) == 1_048_576) || (k == 12 && x == -m && y == 0 && cosine(k)
                == -1_048_576) || (k == 18 && x == 0 && y == -m && sine(k) == -1_048_576),
    ;
    assert(reach(x, y, best) == m * f) by (nonlinear_arith)
        requires
            reach(x, y, best) == x * c + y * s,
            (x == m && y == 0 && f == c) || (x == 0 && y == m && f == s) || (x == -m && y == 0 && f
                == -c) || (x == 0 && y == -m && f == -s),
    ;
    assert(f >= 1_048_576) by (nonlinear_arith)
        requires
            m * 1_048_576 <= m * f,
            0 < m,
    ;
}

/// A vector that is turned to a multiple of 15 degrees keeps its length, up to rounding,
/// and points to the multiple that is nearest to where it pointed.
pub proof fn lemma_snapped_vector(x: Fixed, y: Fixed)
    requires
        -0x4000_0000 < x.raw < 0x4000_0000,
        -0x4000_0000 < y.raw < 0x4000_0000,
    ensures
        ({
            let (u, v) = Fixed::spec_snap_direction(x, y);
            exists|k: int, length: int|
                {
                    &&& 0 <= k < 24
                    &&& #[trigger] is_integer_root(x.raw * x.raw + y.raw * y.raw, length)
                    &&& forall|j: int|
                        0 <= j < 24 ==> #[trigger] reach(x.raw as int, y.raw as int, j) <= reach(
                            x.raw as int,
                            y.raw as int,
                            k,
                        )
                    &&& u.raw * 1_048_576 <= length * #[trigger] cosine(k) < (u.raw + 1) * 1_048_576
                    &&& v.raw * 1_048_576 <= length * sine(k) < (v.raw + 1) * 1_048_576
                }
        }),
{
    let (a, b) = (x.raw as int, y.raw as int);
    let n = a * a + b * b;
    assert(0 <= n < 0x2000_0000_0000_0000) by (nonlinear_arith)
        requires
            n == a * a + b * b,
            -0x4000_0000 < a < 0x4000_0000,
            -0x4000_0000 < b < 0x4000_0000,
    ;
    lemma_integer_root(n);
    let length = integer_root(n);
    let k = nearest_direction(a, b, 23);
    lemma_nearest_direction(a, b, 23);
    assert(length < 0x1_0000_0000) by (nonlinear_arith)
        requires
            0 <= length,
            length * length <= n,
            n < 0x2000_0000_0000_0000,
    ;
    lemma_unit_product_fits(length, cosine(k));
    lemma_unit_product_fits(length, sine(k));
    let (c, s) = (cosine(k), sine(k));
    assert(-0x10_0000_0000_0000 <= length * c <= 0x10_0000_0000_0000) by (nonlinear_arith)
        requires
            0 <= length < 0x1_0000_0000,
            -0x10_0000 <= c <= 0x10_0000,
    ;
    assert(-0x10_0000_0000_0000 <= length * s <= 0x10_0000_0000_0000) by (nonlinear_arith)
        requires
            0 <= length < 0x1_0000_0000,
            -0x10_0000 <= s <= 0x10_0000,
    ;
    assert(is_integer_root(x.raw * x.raw + y.raw * y.raw, length));
    let (u, v) = Fixed::spec_snap_direction(x, y);
    assert(u.raw * 1_048_576 <= length * c < (u.raw + 1) * 1_048_576);
    assert(v.raw * 1_048_576 <= length * s < (v.raw + 1) * 1_048_576);
}

} // verus!

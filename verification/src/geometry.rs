//! Points, the playfield rectangle and unit directions, in fixed point.
//!
//! A coordinate is a whole number of micro-pixels: one logical pixel is
//! `MICRO` units. A time step is a whole number of microseconds, so a speed
//! in pixels per second is also a speed in micro-pixels per microsecond.

use vstd::arithmetic::div_mod::lemma_fundamental_div_mod;
use vstd::prelude::*;

verus! {

/// Units per logical pixel, and microseconds per second.
pub const MICRO: i64 = 1_000_000;

/// The length that a unit direction is scaled to.
pub const DIRECTION_SCALE: i64 = 1_000_000;

/// A position on the playfield, in micro-pixels.
#[derive(Clone, Copy, Debug, PartialEq, Eq, Structural)]
pub struct Point {
    pub x: i64,
    pub y: i64,
}

/// The playfield: a rectangle with one corner at the origin, in micro-pixels.
#[derive(Clone, Copy, Debug, PartialEq, Eq, Structural)]
pub struct Viewport {
    pub width: u64,
    pub height: u64,
}

/// The nearest `i64` to `v`.
pub open spec fn saturated(v: int) -> i64 {
    if v < i64::MIN {
        i64::MIN
    } else if v > i64::MAX {
        i64::MAX
    } else {
        v as i64
    }
}

/// Brings a wide intermediate result back into the coordinate range.
pub fn saturate(v: i128) -> (r: i64)
    ensures
        r == saturated(v as int),
{
    if v < i64::MIN as i128 {
        i64::MIN
    } else if v > i64::MAX as i128 {
        i64::MAX
    } else {
        v as i64
    }
}

/// The absolute value of an integer.
pub open spec fn magnitude(v: int) -> int {
    if v < 0 {
        -v
    } else {
        v
    }
}

/// `r` is the integer square root of `n`, rounded down.
pub open spec fn is_floor_sqrt(r: int, n: int) -> bool {
    0 <= r && r * r <= n < (r + 1) * (r + 1)
}

/// A number has at most one rounded-down square root.
pub proof fn lemma_floor_sqrt_unique(r1: int, r2: int, n: int)
    requires
        is_floor_sqrt(r1, n),
        is_floor_sqrt(r2, n),
    ensures
        r1 == r2,
{
    if r1 < r2 {
        assert((r1 + 1) * (r1 + 1) <= r2 * r2) by (nonlinear_arith)
            requires
                0 <= r1 + 1 <= r2,
        ;
    } else if r2 < r1 {
        assert((r2 + 1) * (r2 + 1) <= r1 * r1) by (nonlinear_arith)
            requires
                0 <= r2 + 1 <= r1,
        ;
    }
}

/// The integer square root of `n`, rounded down.
pub fn floor_sqrt(n: u64) -> (r: u64)
    ensures
        is_floor_sqrt(r as int, n as int),
{
    let mut low: u64 = 0;
    let mut high: u64 = 4_294_967_296;
    while high - low > 1
        invariant
            low < high <= 4_294_967_296,
            low * low <= n < high * high,
        decreases high - low,
    {
        let middle: u64 = low + (high - low) / 2;
        assert(middle * middle < 0x1_0000_0000_0000_0000) by (nonlinear_arith)
            requires
                0 <= middle < 4_294_967_296,
        ;
        if middle * middle <= n {
            low = middle;
        } else {
            high = middle;
        }
    }
    low
}

/// The distance travelled along one axis in `dt` microseconds at `speed`
/// pixels per second, by something whose direction has the given component.
/// Rounded towards zero, so that opposite directions travel opposite ways.
pub open spec fn travel(component: int, speed: int, dt: int) -> int {
    if component >= 0 {
        (component * speed * dt) / 1_000_000
    } else {
        -((-component * speed * dt) / 1_000_000)
    }
}

/// Opposite components travel opposite ways by the same amount, and nothing
/// travels in no time.
pub proof fn lemma_travel_symmetric(component: int, speed: int, dt: int)
    ensures
        travel(-component, speed, dt) == -travel(component, speed, dt),
        travel(component, speed, 0) == 0,
{
    assert(component * speed * 0 == 0) by (nonlinear_arith);
    assert(-component * speed * 0 == 0) by (nonlinear_arith);
    if component == 0 {
        assert(component * speed * dt == 0) by (nonlinear_arith)
            requires
                component == 0,
        ;
    }
}

/// Computes `travel`. The bounds keep the product inside 128 bits.
pub(crate) fn travel_of(component: i64, speed: i64, dt: u64) -> (r: i128)
    requires
        -DIRECTION_SCALE <= component <= DIRECTION_SCALE,
        0 <= speed <= 1_000_000,
    ensures
        r == travel(component as int, speed as int, dt as int),
        -0x400_0000_0000_0000_0000_0000 < r < 0x400_0000_0000_0000_0000_0000,
{
    let size: i128 = if component >= 0 {
        component as i128
    } else {
        -(component as i128)
    };
    assert(0 <= size * speed <= 1_000_000_000_000) by (nonlinear_arith)
        requires
            0 <= size <= 1_000_000,
            0 <= speed <= 1_000_000,
    ;
    let rate: i128 = size * (speed as i128);
    assert(0 <= rate * dt <= 1_000_000_000_000 * 0x1_0000_0000_0000_0000) by (nonlinear_arith)
        requires
            0 <= rate <= 1_000_000_000_000,
            0 <= dt < 0x1_0000_0000_0000_0000,
    ;
    let product: i128 = rate * (dt as i128);
    let steps: i128 = product / 1_000_000;
    if component >= 0 {
        steps
    } else {
        -steps
    }
}

/// The point reached from `start` by the given travel along each axis; a
/// coordinate that would leave the `i64` range stops at its end.
pub open spec fn displaced(start: Point, along_x: int, along_y: int) -> Point {
    Point { x: saturated(start.x + along_x), y: saturated(start.y + along_y) }
}

/// One coordinate clamped into `[half, extent - half]`: the lower bound is
/// tested first, as the upper one is only for a coordinate that passed it.
pub open spec fn confined(v: i64, extent: u64, half: i64) -> i64 {
    if v < half {
        half
    } else if v > extent - half {
        (extent - half) as i64
    } else {
        v
    }
}

/// Computes `confined`.
pub fn confine(v: i64, extent: u64, half: i64) -> (r: i64)
    ensures
        r == confined(v, extent, half),
{
    let upper: i128 = extent as i128 - half as i128;
    if v < half {
        half
    } else if v as i128 > upper {
        upper as i64
    } else {
        v
    }
}

/// Whether a coordinate lies strictly outside `[half, extent - half]`.
pub open spec fn outside(v: i64, extent: u64, half: i64) -> bool {
    v < half || v > extent - half
}

/// Computes `outside`.
pub fn is_outside(v: i64, extent: u64, half: i64) -> (r: bool)
    ensures
        r == outside(v, extent, half),
{
    let upper: i128 = extent as i128 - half as i128;
    v < half || v as i128 > upper
}

/// Clamping is idempotent wherever the interval is not empty.
pub proof fn lemma_confined_idempotent(v: i64, extent: u64, half: i64)
    requires
        half <= extent - half,
    ensures
        confined(confined(v, extent, half), extent, half) == confined(v, extent, half),
        !outside(confined(v, extent, half), extent, half),
{
}

impl Point {
    /// This point clamped into the part of the viewport that keeps a disc of
    /// radius `half` around it inside.
    pub open spec fn confined(self, viewport: Viewport, half: i64) -> Point {
        Point {
            x: confined(self.x, viewport.width, half),
            y: confined(self.y, viewport.height, half),
        }
    }

    /// Whether this point lies in `[half, width - half] x [half, height - half]`.
    pub open spec fn inside(self, viewport: Viewport, half: i64) -> bool {
        !outside(self.x, viewport.width, half) && !outside(self.y, viewport.height, half)
    }

    /// Computes `confined`.
    pub fn confine(&self, viewport: &Viewport, half: i64) -> (r: Point)
        ensures
            r == self.confined(*viewport, half),
    {
        Point {
            x: confine(self.x, viewport.width, half),
            y: confine(self.y, viewport.height, half),
        }
    }

    /// Bringing a point inside twice is the same as doing it once, and the
    /// point then is inside, wherever the viewport has room for the disc.
    pub proof fn lemma_confined_idempotent(self, viewport: Viewport, half: i64)
        requires
            viewport.fits(half),
        ensures
            self.confined(viewport, half).confined(viewport, half) == self.confined(viewport, half),
            self.confined(viewport, half).inside(viewport, half),
    {
        lemma_confined_idempotent(self.x, viewport.width, half);
        lemma_confined_idempotent(self.y, viewport.height, half);
    }

    /// A point at exactly the distance `reach` is not within it.
    pub proof fn lemma_within_is_strict(self, other: Point, reach: u32)
        requires
            self.distance_squared(other) == reach * reach,
        ensures
            !self.within(other, reach),
    {
    }

    /// The square of the Euclidean distance between two points.
    pub open spec fn distance_squared(self, other: Point) -> int {
        (self.x - other.x) * (self.x - other.x) + (self.y - other.y) * (self.y - other.y)
    }

    /// Whether the distance to `other` is strictly less than `reach`.
    pub open spec fn within(self, other: Point, reach: u32) -> bool {
        self.distance_squared(other) < reach * reach
    }

    /// Computes `within`.
    pub fn is_within(&self, other: &Point, reach: u32) -> (r: bool)
        ensures
            r == self.within(*other, reach),
    {
        let along_x: i128 = self.x as i128 - other.x as i128;
        let along_y: i128 = self.y as i128 - other.y as i128;
        let limit: i128 = reach as i128;
        assert(0 <= limit * limit <= 0xffff_ffff * 0xffff_ffff) by (nonlinear_arith)
            requires
                0 <= limit <= 0xffff_ffff,
        ;
        if along_x >= limit || along_x <= -limit {
            assert(along_x * along_x >= limit * limit) by (nonlinear_arith)
                requires
                    along_x >= limit || along_x <= -limit,
                    limit >= 0,
            ;
            assert(along_y * along_y >= 0) by (nonlinear_arith);
            return false;
        }
        if along_y >= limit || along_y <= -limit {
            assert(along_y * along_y >= limit * limit) by (nonlinear_arith)
                requires
                    along_y >= limit || along_y <= -limit,
                    limit >= 0,
            ;
            assert(along_x * along_x >= 0) by (nonlinear_arith);
            return false;
        }
        assert(0 <= along_x * along_x <= 0xffff_ffff * 0xffff_ffff) by (nonlinear_arith)
            requires
                -limit < along_x < limit,
                0 <= limit <= 0xffff_ffff,
        ;
        assert(0 <= along_y * along_y <= 0xffff_ffff * 0xffff_ffff) by (nonlinear_arith)
            requires
                -limit < along_y < limit,
                0 <= limit <= 0xffff_ffff,
        ;
        along_x * along_x + along_y * along_y < limit * limit
    }
}

impl Viewport {
    /// Whether a disc of radius `half` fits between opposite walls, so that
    /// the interval that positions are clamped into is not empty.
    pub open spec fn fits(self, half: i64) -> bool {
        half <= self.width - half && half <= self.height - half
    }

    /// The middle of the playfield.
    pub open spec fn center(self) -> Point {
        Point {
            x: saturated((self.width / 2) as int),
            y: saturated((self.height / 2) as int),
        }
    }

    /// Computes `center`.
    pub fn middle(&self) -> (r: Point)
        ensures
            r == self.center(),
    {
        Point {
            x: saturate((self.width / 2) as i128),
            y: saturate((self.height / 2) as i128),
        }
    }
}

/// A direction of unit length, held as two components scaled by
/// `DIRECTION_SCALE` and rounded towards zero.
#[derive(Clone, Copy, Debug, PartialEq, Eq, Structural)]
pub struct Direction {
    dx: i64,
    dy: i64,
}

/// Whether `(x, y)` is a unit vector at the scale of `DIRECTION_SCALE`, as
/// far as whole components allow: it does not reach outside the circle, and
/// the next lattice point away from the origin does.
pub open spec fn is_unit_vector(x: int, y: int) -> bool {
    &&& x * x + y * y <= 1_000_000 * 1_000_000
    &&& (magnitude(x) + 1) * (magnitude(x) + 1) + (magnitude(y) + 1) * (magnitude(y) + 1)
        > 1_000_000 * 1_000_000
}

/// The components of a unit vector do not exceed the scale.
pub proof fn lemma_unit_vector_bounds(x: int, y: int)
    requires
        is_unit_vector(x, y),
    ensures
        -1_000_000 <= x <= 1_000_000,
        -1_000_000 <= y <= 1_000_000,
{
    assert(-1_000_000 <= x <= 1_000_000) by (nonlinear_arith)
        requires
            x * x + y * y <= 1_000_000 * 1_000_000,
    ;
    assert(-1_000_000 <= y <= 1_000_000) by (nonlinear_arith)
        requires
            x * x + y * y <= 1_000_000 * 1_000_000,
    ;
}

/// Whether `v` is the first component of the vector `(a, b)` scaled to unit
/// length: `|a| * DIRECTION_SCALE / sqrt(a * a + b * b)` rounded down, with
/// the sign of `a`.
pub open spec fn is_scaled_component(v: int, a: int, b: int) -> bool {
    &&& is_floor_sqrt(magnitude(v), (a * a * (1_000_000 * 1_000_000)) / (a * a + b * b))
    &&& a >= 0 ==> v >= 0
    &&& a <= 0 ==> v <= 0
}

/// Scaling any vector but the zero vector to unit length gives a unit vector.
pub proof fn lemma_scaled_is_unit(x: int, y: int, a: int, b: int)
    requires
        a != 0 || b != 0,
        is_scaled_component(x, a, b),
        is_scaled_component(y, b, a),
    ensures
        is_unit_vector(x, y),
{
    let scale = 1_000_000 * 1_000_000;
    let total = a * a + b * b;
    assert(total > 0 && a * a >= 0 && b * b >= 0) by (nonlinear_arith)
        requires
            a != 0 || b != 0,
            total == a * a + b * b,
    ;
    let part_x = a * a * scale;
    let part_y = b * b * scale;
    let share_x = part_x / total;
    let share_y = part_y / total;
    lemma_fundamental_div_mod(part_x, total);
    lemma_fundamental_div_mod(part_y, total);
    let mx = magnitude(x);
    let my = magnitude(y);
    assert(x * x == mx * mx) by (nonlinear_arith)
        requires
            mx == x || mx == -x,
    ;
    assert(y * y == my * my) by (nonlinear_arith)
        requires
            my == y || my == -y,
    ;
    assert(part_x + part_y == total * scale) by (nonlinear_arith)
        requires
            part_x == a * a * scale,
            part_y == b * b * scale,
            total == a * a + b * b,
    ;
    assert(share_x + share_y <= scale) by (nonlinear_arith)
        requires
            total > 0,
            part_x == total * share_x + part_x % total,
            part_y == total * share_y + part_y % total,
            0 <= part_x % total,
            0 <= part_y % total,
            part_x + part_y == total * scale,
    ;
    assert(share_x + share_y + 2 > scale) by (nonlinear_arith)
        requires
            total > 0,
            part_x == total * share_x + part_x % total,
            part_y == total * share_y + part_y % total,
            part_x % total < total,
            part_y % total < total,
            part_x + part_y == total * scale,
    ;
}

impl Direction {
    /// The component along the first axis.
    pub closed spec fn x(self) -> int {
        self.dx as int
    }

    /// The component along the second axis.
    pub closed spec fn y(self) -> int {
        self.dy as int
    }

    /// Whether this direction has unit length.
    pub open spec fn is_unit(self) -> bool {
        is_unit_vector(self.x(), self.y())
    }

    #[verifier::type_invariant]
    closed spec fn well_formed(self) -> bool {
        self.is_unit()
    }

    /// Whether this direction is `(a, b)` scaled to unit length.
    pub open spec fn is_scaled(self, a: int, b: int) -> bool {
        is_scaled_component(self.x(), a, b) && is_scaled_component(self.y(), b, a)
    }

    /// The direction of the vector `(a, b)`, which must not be the zero vector.
    pub open spec fn towards(a: int, b: int) -> Direction {
        choose|d: Direction| d.is_scaled(a, b)
    }

    /// This direction mirrored at a wall that bounds the first axis.
    pub closed spec fn flipped_x(self) -> Direction {
        Direction { dx: (-self.dx) as i64, dy: self.dy }
    }

    /// This direction mirrored at a wall that bounds the second axis.
    pub closed spec fn flipped_y(self) -> Direction {
        Direction { dx: self.dx, dy: (-self.dy) as i64 }
    }

    /// Two directions with the same components are the same direction.
    pub proof fn lemma_same_components(self, other: Direction)
        requires
            self.x() == other.x(),
            self.y() == other.y(),
        ensures
            self == other,
    {
    }

    /// A direction is determined by the vector that it was scaled from.
    pub proof fn lemma_scaled_unique(self, other: Direction, a: int, b: int)
        requires
            self.is_scaled(a, b),
            other.is_scaled(a, b),
        ensures
            self == other,
    {
        let scale = 1_000_000 * 1_000_000;
        lemma_floor_sqrt_unique(
            magnitude(self.x()),
            magnitude(other.x()),
            (a * a * scale) / (a * a + b * b),
        );
        lemma_floor_sqrt_unique(
            magnitude(self.y()),
            magnitude(other.y()),
            (b * b * scale) / (b * b + a * a),
        );
    }

    /// A direction that is `(a, b)` scaled to unit length is the direction of `(a, b)`.
    pub proof fn lemma_towards(self, a: int, b: int)
        requires
            self.is_scaled(a, b),
        ensures
            self == Direction::towards(a, b),
    {
        Direction::towards(a, b).lemma_scaled_unique(self, a, b);
    }

    /// Mirroring changes the sign of one component and nothing else.
    pub proof fn lemma_flipped_components(self)
        requires
            self.is_unit(),
        ensures
            self.flipped_x().x() == -self.x(),
            self.flipped_x().y() == self.y(),
            self.flipped_y().x() == self.x(),
            self.flipped_y().y() == -self.y(),
    {
        lemma_unit_vector_bounds(self.x(), self.y());
    }

    /// Mirroring keeps a direction at unit length.
    pub proof fn lemma_flipped_is_unit(self)
        requires
            self.is_unit(),
        ensures
            self.flipped_x().is_unit(),
            self.flipped_y().is_unit(),
    {
        self.lemma_flipped_components();
        let x = self.x();
        let y = self.y();
        assert((-x) * (-x) == x * x) by (nonlinear_arith);
        assert((-y) * (-y) == y * y) by (nonlinear_arith);
    }

    /// Mirroring twice at the same wall restores the direction.
    pub proof fn lemma_flip_involution(self)
        requires
            self.is_unit(),
        ensures
            self.flipped_x().flipped_x() == self,
            self.flipped_y().flipped_y() == self,
    {
        lemma_unit_vector_bounds(self.x(), self.y());
    }

    /// The vector `(a, b)` scaled to unit length, or nothing for the zero
    /// vector, which has no direction.
    pub fn normalized(a: i32, b: i32) -> (r: Option<Direction>)
        ensures
            r is None <==> a == 0 && b == 0,
            r matches Some(d) ==> d == Direction::towards(a as int, b as int),
            r matches Some(d) ==> d.is_scaled(a as int, b as int),
            r matches Some(d) ==> d.is_unit(),
    {
        if a == 0 && b == 0 {
            return None;
        }
        let size_a: u128 = if a >= 0 {
            a as u128
        } else {
            (-(a as i64)) as u128
        };
        let size_b: u128 = if b >= 0 {
            b as u128
        } else {
            (-(b as i64)) as u128
        };
        let scale: u128 = 1_000_000_000_000;
        assert(size_a * size_a <= 0x4000_0000_0000_0000 && size_a * size_a == a * a)
            by (nonlinear_arith)
            requires
                size_a == a || size_a == -a,
                0 <= size_a <= 0x8000_0000,
        ;
        assert(size_b * size_b <= 0x4000_0000_0000_0000 && size_b * size_b == b * b)
            by (nonlinear_arith)
            requires
                size_b == b || size_b == -b,
                0 <= size_b <= 0x8000_0000,
        ;
        let square_a: u128 = size_a * size_a;
        let square_b: u128 = size_b * size_b;
        assert(square_a + square_b > 0) by (nonlinear_arith)
            requires
                square_a == a * a,
                square_b == b * b,
                a != 0 || b != 0,
        ;
        let total: u128 = square_a + square_b;
        assert(square_a * scale <= 0x4000_0000_0000_0000 * 1_000_000_000_000) by (nonlinear_arith)
            requires
                0 <= square_a <= 0x4000_0000_0000_0000,
                scale == 1_000_000_000_000,
        ;
        assert(square_b * scale <= 0x4000_0000_0000_0000 * 1_000_000_000_000) by (nonlinear_arith)
            requires
                0 <= square_b <= 0x4000_0000_0000_0000,
                scale == 1_000_000_000_000,
        ;
        let share_a: u128 = (square_a * scale) / total;
        let share_b: u128 = (square_b * scale) / total;
        proof {
            let whole = total as int;
            let part_a = (square_a * scale) as int;
            let part_b = (square_b * scale) as int;
            lemma_fundamental_div_mod(part_a, whole);
            lemma_fundamental_div_mod(part_b, whole);
            assert(part_a / whole <= scale) by (nonlinear_arith)
                requires
                    whole > 0,
                    part_a == square_a * scale,
                    square_a <= whole,
                    scale >= 0,
                    part_a == whole * (part_a / whole) + part_a % whole,
                    0 <= part_a % whole,
            ;
            assert(part_b / whole <= scale) by (nonlinear_arith)
                requires
                    whole > 0,
                    part_b == square_b * scale,
                    square_b <= whole,
                    scale >= 0,
                    part_b == whole * (part_b / whole) + part_b % whole,
                    0 <= part_b % whole,
            ;
        }
        let root_a: u64 = floor_sqrt(share_a as u64);
        let root_b: u64 = floor_sqrt(share_b as u64);
        assert(root_a <= 1_000_000) by (nonlinear_arith)
            requires
                root_a * root_a <= 1_000_000_000_000,
                0 <= root_a,
        ;
        assert(root_b <= 1_000_000) by (nonlinear_arith)
            requires
                root_b * root_b <= 1_000_000_000_000,
                0 <= root_b,
        ;
        let dx: i64 = if a >= 0 {
            root_a as i64
        } else {
            -(root_a as i64)
        };
        let dy: i64 = if b >= 0 {
            root_b as i64
        } else {
            -(root_b as i64)
        };
        proof {
            assert(a * a * (1_000_000 * 1_000_000) == square_a * scale) by (nonlinear_arith)
                requires
                    square_a == a * a,
                    scale == 1_000_000_000_000,
            ;
            assert(b * b * (1_000_000 * 1_000_000) == square_b * scale) by (nonlinear_arith)
                requires
                    square_b == b * b,
                    scale == 1_000_000_000_000,
            ;
            assert(a == 0 ==> square_a * scale == 0) by (nonlinear_arith)
                requires
                    square_a == a * a,
            ;
            assert(b == 0 ==> square_b * scale == 0) by (nonlinear_arith)
                requires
                    square_b == b * b,
            ;
            assert(a == 0 ==> root_a == 0) by (nonlinear_arith)
                requires
                    a == 0 ==> share_a == 0,
                    root_a * root_a <= share_a,
            ;
            assert(b == 0 ==> root_b == 0) by (nonlinear_arith)
                requires
                    b == 0 ==> share_b == 0,
                    root_b * root_b <= share_b,
            ;
            lemma_scaled_is_unit(dx as int, dy as int, a as int, b as int);
        }
        let d = Direction { dx, dy };
        proof {
            d.lemma_towards(a as int, b as int);
        }
        Some(d)
    }

    /// The diagonal of the first quadrant: `(1, 1)` scaled to unit length.
    pub fn diagonal() -> (d: Direction)
        ensures
            d == Direction::towards(1, 1),
            d.is_scaled(1, 1),
            d.is_unit(),
    {
        proof {
            let one: int = 1;
            let root: int = 707_106;
            assert((one * one * (1_000_000 * 1_000_000)) / (one * one + one * one)
                == 500_000_000_000) by (nonlinear_arith)
                requires
                    one == 1,
            ;
            assert(root * root <= 500_000_000_000 < (root + 1) * (root + 1)) by (nonlinear_arith)
                requires
                    root == 707_106,
            ;
            lemma_scaled_is_unit(707_106, 707_106, 1, 1);
        }
        let d = Direction { dx: 707_106, dy: 707_106 };
        proof {
            d.lemma_towards(1, 1);
        }
        d
    }

    /// The component along the first axis.
    pub fn dx(&self) -> (r: i64)
        ensures
            r == self.x(),
            -DIRECTION_SCALE <= r <= DIRECTION_SCALE,
            self.is_unit(),
    {
        proof {
            use_type_invariant(self);
            lemma_unit_vector_bounds(self.x(), self.y());
        }
        self.dx
    }

    /// The component along the second axis.
    pub fn dy(&self) -> (r: i64)
        ensures
            r == self.y(),
            -DIRECTION_SCALE <= r <= DIRECTION_SCALE,
            self.is_unit(),
    {
        proof {
            use_type_invariant(self);
            lemma_unit_vector_bounds(self.x(), self.y());
        }
        self.dy
    }

    /// Computes `flipped_x`.
    pub fn flip_x(&self) -> (r: Direction)
        ensures
            r == self.flipped_x(),
            r.x() == -self.x(),
            r.y() == self.y(),
            r.is_unit(),
    {
        proof {
            use_type_invariant(self);
            lemma_unit_vector_bounds(self.x(), self.y());
            self.lemma_flipped_is_unit();
        }
        Direction { dx: -self.dx, dy: self.dy }
    }

    /// Computes `flipped_y`.
    pub fn flip_y(&self) -> (r: Direction)
        ensures
            r == self.flipped_y(),
            r.x() == self.x(),
            r.y() == -self.y(),
            r.is_unit(),
    {
        proof {
            use_type_invariant(self);
            lemma_unit_vector_bounds(self.x(), self.y());
            self.lemma_flipped_is_unit();
        }
        Direction { dx: self.dx, dy: -self.dy }
    }
}

} // verus!

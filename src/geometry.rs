use vstd::prelude::*;

use crate::geometry_lemmas::{lemma_floor_sqrt_bounds, lemma_floor_sqrt_unique, lemma_abs_le_floor_sqrt};

verus! {

/// Sub-units in one world unit. Positions, sizes and displacements are
/// counted in sub-units, so that a tick's displacement
/// `normalize_or_zero(direction) * velocity * dt` (with `dt` in milliseconds
/// and a unit vector scaled by `NORMAL_SCALE`) is an exact whole number.
pub const UNIT: i64 = 65_536_000;

/// Largest magnitude of a position coordinate, in sub-units (100 000 world units).
pub const COORD_LIMIT: i64 = 6_553_600_000_000;

/// Largest magnitude of a heading component (the difference of two positions).
pub const DIRECTION_LIMIT: i64 = 13_107_200_000_000;

/// Fixed-point scale of a unit vector: a unit vector has length `NORMAL_SCALE`.
pub const NORMAL_SCALE: i64 = 65536;

/// A 2D integer vector: a position, a size, a displacement or a heading.
#[derive(Clone, Copy, Debug, PartialEq, Eq, Structural)]
pub struct Vec2 {
    pub x: i64,
    pub y: i64,
}

/// Absolute value of an integer.
pub open spec fn abs(a: int) -> int {
    if a < 0 { -a } else { a }
}

/// Division rounding toward zero (the rounding of Rust's integer `/`).
pub open spec fn trunc_div(a: int, b: int) -> int
    recommends b > 0,
{
    if a >= 0 { a / b } else { -((-a) / b) }
}

/// `r` is the integer square root of `n`, rounded down.
pub open spec fn is_floor_sqrt(n: int, r: int) -> bool {
    0 <= r && r * r <= n && n < (r + 1) * (r + 1)
}

/// The integer square root of `n`, rounded down.
pub open spec fn floor_sqrt(n: nat) -> nat
    decreases n,
{
    if n == 0 {
        0
    } else {
        let r = floor_sqrt((n - 1) as nat);
        if (r + 1) * (r + 1) <= n { (r + 1) as nat } else { r }
    }
}

impl Vec2 {
    pub open spec fn len_sq(self) -> nat {
        (self.x * self.x + self.y * self.y) as nat
    }

    /// Both components lie within `[-limit, limit]`.
    pub open spec fn within(self, limit: int) -> bool {
        abs(self.x as int) <= limit && abs(self.y as int) <= limit
    }

    pub open spec fn is_zero(self) -> bool {
        self.x == 0 && self.y == 0
    }

    /// The length of `self` scaled by `NORMAL_SCALE`, rounded down.
    pub open spec fn scaled_len(self) -> int {
        floor_sqrt((NORMAL_SCALE * NORMAL_SCALE * self.len_sq()) as nat) as int
    }

    /// The unit vector along `self`, scaled by `NORMAL_SCALE` and rounded
    /// toward zero; the zero vector for the zero vector.
    pub open spec fn normalized(self) -> Vec2 {
        if self.is_zero() {
            Vec2 { x: 0, y: 0 }
        } else {
            Vec2 {
                x: trunc_div(self.x * NORMAL_SCALE * NORMAL_SCALE, self.scaled_len()) as i64,
                y: trunc_div(self.y * NORMAL_SCALE * NORMAL_SCALE, self.scaled_len()) as i64,
            }
        }
    }

    pub fn new(x: i64, y: i64) -> (r: Vec2)
        ensures
            r.x == x,
            r.y == y,
    {
        Vec2 { x, y }
    }

    pub fn zero() -> (r: Vec2)
        ensures
            r.is_zero(),
    {
        Vec2 { x: 0, y: 0 }
    }

    /// Component-wise sum.
    pub fn add(self, other: Vec2) -> (r: Vec2)
        requires
            self.within(COORD_LIMIT as int),
            other.within(COORD_LIMIT as int),
        ensures
            r.x == self.x + other.x,
            r.y == self.y + other.y,
    {
        Vec2 { x: self.x + other.x, y: self.y + other.y }
    }

    /// Component-wise difference `self - other`.
    pub fn sub(self, other: Vec2) -> (r: Vec2)
        requires
            self.within(COORD_LIMIT as int),
            other.within(COORD_LIMIT as int),
        ensures
            r.x == self.x - other.x,
            r.y == self.y - other.y,
            r.within(DIRECTION_LIMIT as int),
    {
        Vec2 { x: self.x - other.x, y: self.y - other.y }
    }

    /// The unit vector along `self` (scaled by `NORMAL_SCALE`), or the zero
    /// vector when `self` is zero: it never divides by zero.
    pub fn normalize_or_zero(self) -> (r: Vec2)
        requires
            self.within(DIRECTION_LIMIT as int),
        ensures
            r == self.normalized(),
            r.within(NORMAL_SCALE as int),
            self.is_zero() ==> r.is_zero(),
    {
        if self.x == 0 && self.y == 0 {
            return Vec2 { x: 0, y: 0 };
        }
        let ax: u64 = magnitude(self.x);
        let ay: u64 = magnitude(self.y);
        let sx: u128 = ax as u128 * 65536;
        let sy: u128 = ay as u128 * 65536;
        proof {
            assert(sx * sx <= 737_869_762_948_382_064_640_000_000_000_000_000u128) by (nonlinear_arith)
                requires sx <= 858_993_459_200_000_000u128;
            assert(sy * sy <= 737_869_762_948_382_064_640_000_000_000_000_000u128) by (nonlinear_arith)
                requires sy <= 858_993_459_200_000_000u128;
            assert(sx * sx + sy * sy == 65536 * 65536 * (self.x * self.x + self.y * self.y)) by (nonlinear_arith)
                requires sx == abs(self.x as int) * 65536, sy == abs(self.y as int) * 65536;
        }
        let n: u128 = sx * sx + sy * sy;
        let len: u128 = floor_sqrt_u128(n);
        proof {
            lemma_abs_le_floor_sqrt(sx as int, sy as int, n as int, len as int);
            lemma_abs_le_floor_sqrt(sy as int, sx as int, n as int, len as int);
            assert(self.x * self.x + self.y * self.y >= 0) by (nonlinear_arith);
            assert(self.len_sq() == self.x * self.x + self.y * self.y);
            assert(n as nat == (NORMAL_SCALE * NORMAL_SCALE * self.len_sq()) as nat);
            assert(len as int == self.scaled_len());
        }
        let x = scaled_ratio(self.x, ax, len);
        let y = scaled_ratio(self.y, ay, len);
        Vec2 { x, y }
    }
}

/// `|a|` as an unsigned integer.
fn magnitude(a: i64) -> (r: u64)
    requires
        abs(a as int) <= DIRECTION_LIMIT,
    ensures
        r == abs(a as int),
{
    if a < 0 { (-a) as u64 } else { a as u64 }
}

/// `trunc_div(a * NORMAL_SCALE * NORMAL_SCALE, len)` where
/// `|a| * NORMAL_SCALE <= len`.
fn scaled_ratio(a: i64, a_abs: u64, len: u128) -> (r: i64)
    requires
        a_abs == abs(a as int),
        a_abs <= DIRECTION_LIMIT,
        a_abs * NORMAL_SCALE <= len,
        len > 0,
    ensures
        r == trunc_div(a * NORMAL_SCALE * NORMAL_SCALE, len as int),
        abs(r as int) <= NORMAL_SCALE,
{
    let num: u128 = a_abs as u128 * 4_294_967_296;
    let q: u128 = num / len;
    proof {
        assert(num <= len * 65536) by (nonlinear_arith)
            requires num == a_abs * 4_294_967_296, a_abs * 65536 <= len;
        assert(q <= 65536) by (nonlinear_arith)
            requires q == num / len, num <= len * 65536, len > 0;
        assert(a * 65536 * 65536 == a * 4_294_967_296);
    }
    if a < 0 {
        proof {
            assert(-(a * 4_294_967_296) == num);
        }
        -(q as i64)
    } else {
        q as i64
    }
}

/// Integer square root, rounded down, by bisection.
pub fn floor_sqrt_u128(n: u128) -> (r: u128)
    requires
        n < 0x1_0000_0000_0000_0000_0000_0000_0000_0000 - 1,
    ensures
        r == floor_sqrt(n as nat),
        is_floor_sqrt(n as int, r as int),
        r < 0x1_0000_0000_0000_0000u128,
{
    let mut lo: u128 = 0;
    let mut hi: u128 = 0x1_0000_0000_0000_0000;
    proof {
        assert(n < hi * hi) by (nonlinear_arith)
            requires hi == 0x1_0000_0000_0000_0000u128, n < 0x1_0000_0000_0000_0000_0000_0000_0000_0000 - 1;
    }
    while hi - lo > 1
        invariant
            lo < hi <= 0x1_0000_0000_0000_0000u128,
            lo * lo <= n,
            n < hi * hi,
        decreases hi - lo,
    {
        let mid: u128 = lo + (hi - lo) / 2;
        proof {
            assert(mid * mid < 0x1_0000_0000_0000_0000_0000_0000_0000_0000) by (nonlinear_arith)
                requires mid < 0x1_0000_0000_0000_0000u128;
        }
        if mid * mid <= n {
            lo = mid;
        } else {
            hi = mid;
        }
    }
    proof {
        assert(hi == lo + 1);
        lemma_floor_sqrt_bounds(n as nat);
        lemma_floor_sqrt_unique(n as int, lo as int, floor_sqrt(n as nat) as int);
    }
    lo
}

/// The side of a contact between a box `a` and a box `b`, seen from `a`:
/// `Left` means that `a` reaches into `b` from the left, `Top` that `a` rests
/// on `b` from above, `Inside` that no side can be told apart.
#[derive(Clone, Copy, Debug, PartialEq, Eq, Structural)]
pub enum Collision {
    Left,
    Right,
    Top,
    Bottom,
    Inside,
}

/// Contact along one axis, from the box ends `[a_lo, a_hi]` and `[b_lo, b_hi]`:
/// the side (`low` when `a` enters from below, `high` from above, `Inside`
/// otherwise) and the penetration depth, where `None` stands for an infinite
/// depth.
pub open spec fn axis_contact(
    a_lo: int,
    a_hi: int,
    b_lo: int,
    b_hi: int,
    low: Collision,
    high: Collision,
) -> (Collision, Option<int>) {
    if a_lo < b_lo && a_hi > b_lo && a_hi < b_hi {
        (low, Some(a_hi - b_lo))
    } else if a_lo > b_lo && a_lo < b_hi && a_hi > b_hi {
        (high, Some(b_hi - a_lo))
    } else {
        (Collision::Inside, None)
    }
}

/// Depth `d1` is strictly shallower than depth `d2` (`None` is infinite).
pub open spec fn shallower(d1: Option<int>, d2: Option<int>) -> bool {
    match (d1, d2) {
        (Some(a), Some(b)) => a < b,
        (Some(_), None) => true,
        (None, _) => false,
    }
}

/// The contact between box `a` (centre `a_pos`, full size `a_size`) and box `b`.
/// Boxes are open: touching edges do not overlap. Ends are compared in doubled
/// coordinates (`2 * centre ± size`), so half sizes stay exact. When both axes
/// give a side, the one with the shallower penetration wins, ties going to x.
pub open spec fn collision_of(a_pos: Vec2, a_size: Vec2, b_pos: Vec2, b_size: Vec2) -> Option<Collision> {
    let a_lo_x = 2 * a_pos.x - a_size.x;
    let a_hi_x = 2 * a_pos.x + a_size.x;
    let a_lo_y = 2 * a_pos.y - a_size.y;
    let a_hi_y = 2 * a_pos.y + a_size.y;
    let b_lo_x = 2 * b_pos.x - b_size.x;
    let b_hi_x = 2 * b_pos.x + b_size.x;
    let b_lo_y = 2 * b_pos.y - b_size.y;
    let b_hi_y = 2 * b_pos.y + b_size.y;
    if a_lo_x < b_hi_x && a_hi_x > b_lo_x && a_lo_y < b_hi_y && a_hi_y > b_lo_y {
        let (xc, xd) = axis_contact(a_lo_x, a_hi_x, b_lo_x, b_hi_x, Collision::Left, Collision::Right);
        let (yc, yd) = axis_contact(a_lo_y, a_hi_y, b_lo_y, b_hi_y, Collision::Bottom, Collision::Top);
        if shallower(yd, xd) { Some(yc) } else { Some(xc) }
    } else {
        None
    }
}

/// Executable form of `axis_contact`; a depth of `-1` stands for infinite.
fn axis_contact_exec(a_lo: i64, a_hi: i64, b_lo: i64, b_hi: i64, low: Collision, high: Collision) -> (r: (Collision, i64))
    requires
        a_lo <= a_hi,
        b_lo <= b_hi,
        abs(a_lo as int) <= 4 * DIRECTION_LIMIT,
        abs(a_hi as int) <= 4 * DIRECTION_LIMIT,
        abs(b_lo as int) <= 4 * DIRECTION_LIMIT,
        abs(b_hi as int) <= 4 * DIRECTION_LIMIT,
    ensures
        ({
            let (c, d) = axis_contact(a_lo as int, a_hi as int, b_lo as int, b_hi as int, low, high);
            &&& r.0 == c
            &&& d is None ==> r.1 == -1
            &&& d is Some ==> r.1 >= 0 && r.1 == d->0
        }),
{
    if a_lo < b_lo && a_hi > b_lo && a_hi < b_hi {
        (low, a_hi - b_lo)
    } else if a_lo > b_lo && a_lo < b_hi && a_hi > b_hi {
        (high, b_hi - a_lo)
    } else {
        (Collision::Inside, -1)
    }
}

/// Overlap test with side classification between box `a` (centre `a_pos`,
/// full size `a_size`) and box `b`: `None` when they do not overlap.
pub fn collide(a_pos: Vec2, a_size: Vec2, b_pos: Vec2, b_size: Vec2) -> (r: Option<Collision>)
    requires
        a_pos.within(DIRECTION_LIMIT as int),
        b_pos.within(DIRECTION_LIMIT as int),
        a_size.within(DIRECTION_LIMIT as int),
        b_size.within(DIRECTION_LIMIT as int),
        a_size.x >= 0,
        a_size.y >= 0,
        b_size.x >= 0,
        b_size.y >= 0,
    ensures
        r == collision_of(a_pos, a_size, b_pos, b_size),
{
    let a_lo_x = 2 * a_pos.x - a_size.x;
    let a_hi_x = 2 * a_pos.x + a_size.x;
    let a_lo_y = 2 * a_pos.y - a_size.y;
    let a_hi_y = 2 * a_pos.y + a_size.y;
    let b_lo_x = 2 * b_pos.x - b_size.x;
    let b_hi_x = 2 * b_pos.x + b_size.x;
    let b_lo_y = 2 * b_pos.y - b_size.y;
    let b_hi_y = 2 * b_pos.y + b_size.y;
    if a_lo_x < b_hi_x && a_hi_x > b_lo_x && a_lo_y < b_hi_y && a_hi_y > b_lo_y {
        let (xc, xd) = axis_contact_exec(a_lo_x, a_hi_x, b_lo_x, b_hi_x, Collision::Left, Collision::Right);
        let (yc, yd) = axis_contact_exec(a_lo_y, a_hi_y, b_lo_y, b_hi_y, Collision::Bottom, Collision::Top);
        let y_wins = yd >= 0 && (xd < 0 || yd < xd);
        if y_wins { Some(yc) } else { Some(xc) }
    } else {
        None
    }
}

} // verus!

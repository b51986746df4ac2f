use vstd::prelude::*;

verus! {

/// Nanopixels in one pixel.
pub const UNITS_PER_PIXEL: i64 = 1_000_000_000;

/// Microseconds in one second.
pub const MICROS_PER_SECOND: i64 = 1_000_000;

pub open spec fn fits_i64(v: int) -> bool {
    i64::MIN <= v <= i64::MAX
}

/// Whether `v` fits an `i64`.
pub fn fits(v: i128) -> (r: bool)
    ensures
        r == fits_i64(v as int),
{
    i64::MIN as i128 <= v && v <= i64::MAX as i128
}

/// Division that rounds toward zero, as the integer `/` of Rust does.
pub open spec fn quot(a: int, b: int) -> int
    recommends
        b > 0,
{
    if a >= 0 {
        a / b
    } else {
        -((-a) / b)
    }
}

/// The integer square root: the largest `r` with `r * r <= n`.
pub open spec fn isqrt(n: nat) -> nat
    decreases n,
{
    if n == 0 {
        0
    } else {
        let r = isqrt((n - 1) as nat);
        if (r + 1) * (r + 1) <= n {
            r + 1
        } else {
            r
        }
    }
}

pub proof fn lemma_isqrt(n: nat)
    ensures
        isqrt(n) * isqrt(n) <= n,
        n < (isqrt(n) + 1) * (isqrt(n) + 1),
    decreases n,
{
    if n > 0 {
        lemma_isqrt((n - 1) as nat);
        let r = isqrt((n - 1) as nat);
        let s = isqrt(n);
        if (r + 1) * (r + 1) <= n {
            assert(s == r + 1);
            assert((r + 1) * (r + 1) < (r + 2) * (r + 2)) by (nonlinear_arith);
            assert(s * s <= n);
            assert(n < (s + 1) * (s + 1));
        } else {
            assert(s == r);
            assert(s * s <= n);
            assert(n < (s + 1) * (s + 1));
        }
    } else {
        let s = isqrt(n);
        assert(s == 0);
        assert((s + 1) * (s + 1) == 1) by (nonlinear_arith)
            requires s == 0;
    }
}

/// Two roots of the same number are the same.
pub proof fn lemma_root_unique(n: nat, a: nat, b: nat)
    requires
        a * a <= n < (a + 1) * (a + 1),
        b * b <= n < (b + 1) * (b + 1),
    ensures
        a == b,
{
    if a < b {
        assert((a + 1) * (a + 1) <= b * b) by (nonlinear_arith)
            requires a + 1 <= b;
    }
    if b < a {
        assert((b + 1) * (b + 1) <= a * a) by (nonlinear_arith)
            requires b + 1 <= a;
    }
}

/// Computes `isqrt(n)` by bisection.
pub fn integer_sqrt(n: u128) -> (r: u64)
    ensures
        r as nat == isqrt(n as nat),
{
    let mut lo: u128 = 0;
    let mut hi: u128 = 0x1_0000_0000_0000_0000;
    assert(0x1_0000_0000_0000_0000 * 0x1_0000_0000_0000_0000 == 0x1_0000_0000_0000_0000_0000_0000_0000_0000int);
    while hi - lo > 1
        invariant
            lo < hi <= 0x1_0000_0000_0000_0000,
            lo * lo <= n,
            n < hi * hi,
        decreases hi - lo,
    {
        let mid: u128 = lo + (hi - lo) / 2;
        assert(mid * mid <= 0xffff_ffff_ffff_ffff * 0xffff_ffff_ffff_ffffu128) by (nonlinear_arith)
            requires mid < 0x1_0000_0000_0000_0000;
        if mid * mid <= n {
            lo = mid;
        } else {
            hi = mid;
        }
    }
    proof {
        lemma_isqrt(n as nat);
        lemma_root_unique(n as nat, lo as nat, isqrt(n as nat));
    }
    lo as u64
}

/// Divides rounding toward zero.
pub fn div_toward_zero(a: i128, b: i128) -> (r: i128)
    requires
        b > 0,
        a > i128::MIN,
    ensures
        r == quot(a as int, b as int),
{
    if a >= 0 {
        a / b
    } else {
        -((-a) / b)
    }
}

/// A vector of two fixed-point components.
#[derive(Clone, Copy, Debug, PartialEq, Eq, Structural)]
pub struct Vec2 {
    pub x: i64,
    pub y: i64,
}

impl Vec2 {
    pub fn new(x: i64, y: i64) -> (r: Vec2)
        ensures
            r.x == x,
            r.y == y,
    {
        Vec2 { x, y }
    }

    pub fn zero() -> (r: Vec2)
        ensures
            r.x == 0,
            r.y == 0,
    {
        Vec2 { x: 0, y: 0 }
    }

    /// The squared length, as an integer.
    pub open spec fn length_sq(self) -> int {
        self.x * self.x + self.y * self.y
    }
}

/// An axis-aligned rectangle: its corner of least coordinates and its extents.
#[derive(Clone, Copy, Debug, PartialEq, Eq, Structural)]
pub struct Rect {
    pub x: i64,
    pub y: i64,
    pub w: i64,
    pub h: i64,
}

impl Rect {
    pub fn new(x: i64, y: i64, w: i64, h: i64) -> (r: Rect)
        ensures
            r.x == x,
            r.y == y,
            r.w == w,
            r.h == h,
    {
        Rect { x, y, w, h }
    }

    /// Non-negative extents, and far edges that fit the coordinate type.
    pub open spec fn is_valid(self) -> bool {
        &&& self.w >= 0
        &&& self.h >= 0
        &&& fits_i64(self.x + self.w)
        &&& fits_i64(self.y + self.h)
    }

    pub fn valid(&self) -> (r: bool)
        ensures
            r == self.is_valid(),
    {
        self.w >= 0 && self.h >= 0 && fits(self.x as i128 + self.w as i128) && fits(self.y as i128 + self.h as i128)
    }

    /// Both extents are positive.
    pub open spec fn has_area(self) -> bool {
        self.w > 0 && self.h > 0
    }

    /// Strict overlap: rectangles that only share an edge do not overlap.
    pub open spec fn overlaps_spec(self, o: Rect) -> bool {
        &&& self.x < o.x + o.w
        &&& o.x < self.x + self.w
        &&& self.y < o.y + o.h
        &&& o.y < self.y + self.h
    }

    /// Half-open membership of a point.
    pub open spec fn contains_point(self, px: int, py: int) -> bool {
        &&& self.x <= px < self.x + self.w
        &&& self.y <= py < self.y + self.h
    }

    pub fn overlaps(&self, o: &Rect) -> (r: bool)
        ensures
            r == self.overlaps_spec(*o),
    {
        (self.x as i128) < (o.x as i128) + (o.w as i128)
            && (o.x as i128) < (self.x as i128) + (self.w as i128)
            && (self.y as i128) < (o.y as i128) + (o.h as i128)
            && (o.y as i128) < (self.y as i128) + (self.h as i128)
    }

    /// The same rectangle moved by `d`.
    pub fn offset(&self, d: Vec2) -> (r: Rect)
        requires
            fits_i64(self.x + d.x),
            fits_i64(self.y + d.y),
        ensures
            r == (Rect { x: (self.x + d.x) as i64, y: (self.y + d.y) as i64, w: self.w, h: self.h }),
    {
        Rect { x: self.x + d.x, y: self.y + d.y, w: self.w, h: self.h }
    }

    pub fn left(&self) -> (r: i64)
        ensures
            r == self.x,
    {
        self.x
    }

    pub fn top(&self) -> (r: i64)
        ensures
            r == self.y,
    {
        self.y
    }

    pub fn right(&self) -> (r: i64)
        requires
            fits_i64(self.x + self.w),
        ensures
            r == self.x + self.w,
    {
        self.x + self.w
    }

    pub fn bottom(&self) -> (r: i64)
        requires
            fits_i64(self.y + self.h),
        ensures
            r == self.y + self.h,
    {
        self.y + self.h
    }
}

} // verus!

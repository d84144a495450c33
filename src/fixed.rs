//! Fixed-point numbers and the affine transforms built from them.

use vstd::prelude::*;

verus! {

/// One document unit: numbers are held in millionths.
pub const UNIT: i64 = 1_000_000;

/// Whether an integer can be held in an `i64`.
pub open spec fn in_range(v: int) -> bool {
    i64::MIN <= v <= i64::MAX
}

/// An integer as a fixed-point number, when it can be held.
pub open spec fn fit(v: int) -> Option<i64> {
    if in_range(v) {
        Some(v as i64)
    } else {
        None
    }
}

/// Product of two fixed-point numbers, rounded toward negative infinity.
pub open spec fn fx_mul(x: int, y: int) -> int {
    (x * y) / (UNIT as int)
}

/// The product of two values of at most 2^63 in size stays within 2^126,
/// and their `fx_mul` within 2^108.
proof fn lemma_mul_bound(x: int, y: int)
    requires
        -0x8000_0000_0000_0000 <= x <= 0x8000_0000_0000_0000,
        -0x8000_0000_0000_0000 <= y <= 0x8000_0000_0000_0000,
    ensures
        -0x4000_0000_0000_0000_0000_0000_0000_0000 <= x * y <= 0x4000_0000_0000_0000_0000_0000_0000_0000,
        -0x1000_0000_0000_0000_0000_0000_0000 <= fx_mul(x, y) <= 0x1000_0000_0000_0000_0000_0000_0000,
{
    assert(-0x4000_0000_0000_0000_0000_0000_0000_0000 <= x * y <= 0x4000_0000_0000_0000_0000_0000_0000_0000)
        by (nonlinear_arith)
        requires
            -0x8000_0000_0000_0000 <= x <= 0x8000_0000_0000_0000,
            -0x8000_0000_0000_0000 <= y <= 0x8000_0000_0000_0000,
    ;
    let p = x * y;
    assert(-0x1000_0000_0000_0000_0000_0000_0000 <= p / 1_000_000 <= 0x1000_0000_0000_0000_0000_0000_0000)
        by (nonlinear_arith)
        requires
            -0x4000_0000_0000_0000_0000_0000_0000_0000 <= p <= 0x4000_0000_0000_0000_0000_0000_0000_0000,
    ;
}

/// `fx_mul` computed exactly, on operands of at most 2^63 in size.
pub fn mul_wide(x: i128, y: i128) -> (r: i128)
    requires
        -0x8000_0000_0000_0000 <= x <= 0x8000_0000_0000_0000,
        -0x8000_0000_0000_0000 <= y <= 0x8000_0000_0000_0000,
    ensures
        r == fx_mul(x as int, y as int),
        -0x1000_0000_0000_0000_0000_0000_0000 <= r <= 0x1000_0000_0000_0000_0000_0000_0000,
{
    proof {
        lemma_mul_bound(x as int, y as int);
    }
    let p: i128 = x * y;
    match p.checked_div_euclid(UNIT as i128) {
        Some(q) => q,
        None => {
            proof {
                assert(false);
            }
            0
        },
    }
}

/// An `i128` narrowed to a fixed-point number, when it fits.
pub fn narrow(v: i128) -> (r: Option<i64>)
    ensures
        r == fit(v as int),
{
    if v >= i64::MIN as i128 && v <= i64::MAX as i128 {
        Some(v as i64)
    } else {
        None
    }
}

/// Product of two fixed-point numbers, rounded toward negative infinity;
/// `None` when it cannot be held.
pub fn mul_fx(x: i64, y: i64) -> (r: Option<i64>)
    ensures
        r == fit(fx_mul(x as int, y as int)),
{
    narrow(mul_wide(x as i128, y as i128))
}

/// A point of the plane.
#[derive(Clone, Copy, Debug, PartialEq, Eq, Structural)]
pub struct Point {
    pub x: i64,
    pub y: i64,
}

/// A 2D affine transform `[a b c d e f]`: a point `(x, y)` maps to
/// `(x*a + y*c + e, x*b + y*d + f)`.
#[derive(Clone, Copy, Debug, PartialEq, Eq, Structural)]
pub struct Affine {
    pub a: i64,
    pub b: i64,
    pub c: i64,
    pub d: i64,
    pub e: i64,
    pub f: i64,
}

/// The identity transform.
pub open spec fn identity() -> Affine {
    Affine { a: UNIT, b: 0, c: 0, d: UNIT, e: 0, f: 0 }
}

/// The translation by `(tx, ty)`.
pub open spec fn translation(tx: int, ty: int) -> Affine {
    Affine { a: UNIT, b: 0, c: 0, d: UNIT, e: tx as i64, f: ty as i64 }
}

/// `translate(tx, ty)` followed by `m`: the translation is applied in `m`'s
/// frame, so only the offset changes; `None` when it cannot be held.
pub open spec fn pre_translate(m: Affine, tx: int, ty: int) -> Option<Affine> {
    let e = fx_mul(tx, m.a as int) + fx_mul(ty, m.c as int) + m.e;
    let f = fx_mul(tx, m.b as int) + fx_mul(ty, m.d as int) + m.f;
    if in_range(e) && in_range(f) {
        Some(Affine { e: e as i64, f: f as i64, ..m })
    } else {
        None
    }
}

/// Where `m` maps the origin.
pub open spec fn origin_of(m: Affine) -> Point {
    Point { x: m.e, y: m.f }
}

impl Affine {
    /// The identity transform.
    pub fn identity() -> (r: Affine)
        ensures
            r == identity(),
    {
        Affine { a: UNIT, b: 0, c: 0, d: UNIT, e: 0, f: 0 }
    }

    /// The transform given by its six coefficients.
    pub fn row_major(a: i64, b: i64, c: i64, d: i64, e: i64, f: i64) -> (r: Affine)
        ensures
            r == (Affine { a, b, c, d, e, f }),
    {
        Affine { a, b, c, d, e, f }
    }

    /// `translate(tx, ty)` followed by `self`.
    pub fn pre_translate(&self, tx: i128, ty: i128) -> (r: Option<Affine>)
        requires
            -0x8000_0000_0000_0000 <= tx <= 0x8000_0000_0000_0000,
            -0x8000_0000_0000_0000 <= ty <= 0x8000_0000_0000_0000,
        ensures
            r == pre_translate(*self, tx as int, ty as int),
    {
        let e = mul_wide(tx, self.a as i128) + mul_wide(ty, self.c as i128) + self.e as i128;
        let f = mul_wide(tx, self.b as i128) + mul_wide(ty, self.d as i128) + self.f as i128;
        match (narrow(e), narrow(f)) {
            (Some(e), Some(f)) => Some(Affine { e, f, ..*self }),
            _ => None,
        }
    }

    /// Where `self` maps the origin.
    pub fn origin(&self) -> (r: Point)
        ensures
            r == origin_of(*self),
    {
        Point { x: self.e, y: self.f }
    }
}

/// Translating by whole fixed-point amounts after the identity moves the
/// offset by exactly those amounts.
pub proof fn lemma_identity_translate(tx: int, ty: int)
    requires
        in_range(tx),
        in_range(ty),
    ensures
        pre_translate(identity(), tx, ty) == Some(translation(tx, ty)),
{
    assert(fx_mul(tx, UNIT as int) == tx) by (nonlinear_arith);
    assert(fx_mul(ty, UNIT as int) == ty) by (nonlinear_arith);
    assert(fx_mul(tx, 0) == 0);
    assert(fx_mul(ty, 0) == 0);
}

} // verus!
